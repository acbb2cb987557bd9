//! Notifications sent to the external observer, and their mathematical image.

use vstd::prelude::*;

verus! {

/// One notification emitted to the external observer. Delivery is
/// fire-and-forget; only the order of emission is specified.
#[derive(PartialEq, Eq, Debug)]
pub enum Event {
    /// a listening session has begun
    MicEnabled,
    /// the listening session was cancelled
    MicDisabled,
    /// a speech segment of the given duration was captured
    SpeechDetected { duration_ms: u64 },
    /// transcription of the current segment has begun
    TranscriptionStarted,
    /// one recognized line of text
    TranscriptionLine { text: String },
    /// transcription of the current segment is complete
    TranscriptionStopped,
    /// synthesis of the current line has begun
    SynthesisStarted,
    /// synthesis of the current line is complete
    SynthesisStopped,
    /// playback of the synthesized audio has begun
    SpeakingStarted,
    /// playback of the synthesized audio is complete
    SpeakingStopped,
}

/// The mathematical image of an `Event`: line text is carried as a
/// sequence of characters.
pub enum Ev {
    MicEnabled,
    MicDisabled,
    SpeechDetected(u64),
    TranscriptionStarted,
    TranscriptionLine(Seq<char>),
    TranscriptionStopped,
    SynthesisStarted,
    SynthesisStopped,
    SpeakingStarted,
    SpeakingStopped,
}

impl View for Event {
    type V = Ev;

    open spec fn view(&self) -> Ev {
        match self {
            Event::MicEnabled => Ev::MicEnabled,
            Event::MicDisabled => Ev::MicDisabled,
            Event::SpeechDetected { duration_ms } => Ev::SpeechDetected(*duration_ms),
            Event::TranscriptionStarted => Ev::TranscriptionStarted,
            Event::TranscriptionLine { text } => Ev::TranscriptionLine(text@),
            Event::TranscriptionStopped => Ev::TranscriptionStopped,
            Event::SynthesisStarted => Ev::SynthesisStarted,
            Event::SynthesisStopped => Ev::SynthesisStopped,
            Event::SpeakingStarted => Ev::SpeakingStarted,
            Event::SpeakingStopped => Ev::SpeakingStopped,
        }
    }
}

/// The image of a sequence of emitted events.
pub open spec fn ev_seq(s: Seq<Event>) -> Seq<Ev> {
    s.map_values(|e: Event| e@)
}

pub proof fn lemma_ev_seq_concat(a: Seq<Event>, b: Seq<Event>)
    ensures
        ev_seq(a + b) =~= ev_seq(a) + ev_seq(b),
{
}

} // verus!
