//! The synthesizer: a process-wide singleton resource whose speak cycle
//! emits its phase boundaries in a fixed order and whose playback phases
//! never overlap.

use vstd::prelude::*;

use crate::event::{ev_seq, lemma_ev_seq_concat, Ev, Event};

verus! {

/// The phase the shared synthesizer resource is in. Exclusive access to the
/// resource (a `&mut` borrow) is required to move it between phases, so a
/// second speaker can begin only once the first has released it in `Free`.
#[derive(Clone, Copy, PartialEq, Eq, Structural, Debug)]
pub enum SynthPhase {
    /// no synthesis or playback is in flight
    Free,
    /// between `synthesis-started` and `synthesis-stopped`
    Synthesizing,
    /// between `speaking-started` and `speaking-stopped`
    Playing,
}

/// The voice backend could not be initialized.
#[derive(Clone, Copy, PartialEq, Eq, Structural, Debug)]
pub enum InitError {
    /// voice selection is supported but the preferred voice is not installed
    VoiceUnavailable,
}

/// The name of the voice the synthesizer is set to when the backend
/// supports voice selection.
pub open spec fn preferred_voice() -> Seq<char> {
    "Ava"@
}

/// The events one complete speak cycle emits: `synthesis-started` and
/// `synthesis-stopped` always, and the playback pair only when synthesis
/// succeeded — a failure downgrades to a no-op playback.
pub open spec fn speak_trace(ok: bool) -> Seq<Ev> {
    if ok {
        seq![Ev::SynthesisStarted, Ev::SynthesisStopped, Ev::SpeakingStarted, Ev::SpeakingStopped]
    } else {
        seq![Ev::SynthesisStarted, Ev::SynthesisStopped]
    }
}

/// The process-wide synthesizer state: constructed once at startup and
/// shared, under exclusive access, by every speak cycle of every session.
pub struct TtsState {
    phase: SynthPhase,
    voice: Option<usize>,
    pending: Ghost<Seq<char>>,
    spoken: Ghost<Seq<Seq<char>>>,
}

impl TtsState {
    /// The phase the resource is in.
    pub closed spec fn synth_phase(self) -> SynthPhase {
        self.phase
    }

    /// The index of the voice the backend was set to, if any.
    pub closed spec fn chosen_voice(self) -> Option<usize> {
        self.voice
    }

    /// The text whose speak cycle is in flight.
    pub closed spec fn pending(self) -> Seq<char> {
        self.pending@
    }

    /// Every text whose playback has begun, in order.
    pub closed spec fn spoken(self) -> Seq<Seq<char>> {
        self.spoken@
    }

    /// The phase the resource is in, for callers deciding when to retry.
    pub fn current_phase(&self) -> (p: SynthPhase)
        ensures
            p == self.synth_phase(),
    {
        self.phase
    }

    /// The first-match property of voice selection: `voice` points at the
    /// first entry of `voices` whose name is the preferred one.
    pub open spec fn picks_first_preferred(voice: Option<usize>, voices: Seq<String>) -> bool {
        match voice {
            Option::Some(k) => {
                &&& 0 <= k < voices.len()
                &&& voices[k as int]@ == preferred_voice()
                &&& (forall|j: int| 0 <= j < k ==> voices[j]@ != preferred_voice())
            },
            Option::None => false,
        }
    }

    /// What a freshly initialized synthesizer looks like.
    pub open spec fn freshly_initialized(t: TtsState, voice_feature: bool, voices: Seq<String>) -> bool {
        &&& t.synth_phase() is Free
        &&& t.spoken() == Seq::<Seq<char>>::empty()
        &&& (if voice_feature {
            Self::picks_first_preferred(t.chosen_voice(), voices)
        } else {
            t.chosen_voice() is None
        })
    }

    /// The index of the voice the backend is to be set to, if any.
    pub fn voice_index(&self) -> (v: Option<usize>)
        ensures
            v == self.chosen_voice(),
    {
        self.voice
    }

    /// Initialize the synthesizer once at process start. `voice_feature`
    /// says whether the backend supports voice selection, and `voices` is
    /// the list of installed voice names the backend reports. When selection
    /// is supported, the first voice bearing the preferred name is chosen;
    /// if none is installed, initialization fails and no state is produced.
    pub fn init_tts(voice_feature: bool, voices: &Vec<String>) -> (r: Result<TtsState, InitError>)
        ensures
            r is Ok <==> (!voice_feature || (exists|i: int|
                0 <= i < voices@.len() && voices@[i]@ == preferred_voice())),
            r is Err ==> r == Result::<TtsState, InitError>::Err(InitError::VoiceUnavailable),
            r is Ok ==> Self::freshly_initialized(r->Ok_0, voice_feature, voices@),
    {
        if !voice_feature {
            return Ok(TtsState {
                phase: SynthPhase::Free,
                voice: None,
                pending: Ghost(Seq::empty()),
                spoken: Ghost(Seq::empty()),
            });
        }
        let target: String = "Ava".to_owned();
        let mut i: usize = 0;
        while i < voices.len()
            invariant
                voice_feature,
                i <= voices@.len(),
                target@ == preferred_voice(),
                forall|j: int| 0 <= j < i ==> voices@[j]@ != preferred_voice(),
            decreases voices@.len() - i,
        {
            if voices[i] == target {
                return Ok(TtsState {
                    phase: SynthPhase::Free,
                    voice: Some(i),
                    pending: Ghost(Seq::empty()),
                    spoken: Ghost(Seq::empty()),
                });
            }
            i += 1;
        }
        Err(InitError::VoiceUnavailable)
    }

    /// Acquire the resource for one line and announce synthesis. Only a
    /// free resource can be acquired: a competing speaker waits until the
    /// cycle in flight has released it.
    pub fn begin_synthesis(&mut self, text: &str) -> (evs: Vec<Event>)
        requires
            old(self).synth_phase() is Free,
        ensures
            final(self).synth_phase() is Synthesizing,
            final(self).pending() == text@,
            final(self).spoken() == old(self).spoken(),
            final(self).chosen_voice() == old(self).chosen_voice(),
            ev_seq(evs@) =~= seq![Ev::SynthesisStarted],
    {
        self.phase = SynthPhase::Synthesizing;
        self.pending = Ghost(text@);
        let mut evs: Vec<Event> = Vec::new();
        evs.push(Event::SynthesisStarted);
        evs
    }

    /// Record the synthesis outcome. On success playback begins at once; a
    /// failure is downgraded to a no-op playback and the resource is
    /// released, so the session goes on.
    pub fn finish_synthesis(&mut self, ok: bool) -> (evs: Vec<Event>)
        requires
            old(self).synth_phase() is Synthesizing,
        ensures
            final(self).chosen_voice() == old(self).chosen_voice(),
            final(self).pending() == old(self).pending(),
            ok ==> {
                &&& final(self).synth_phase() is Playing
                &&& final(self).spoken() == old(self).spoken().push(old(self).pending())
                &&& ev_seq(evs@) =~= seq![Ev::SynthesisStopped, Ev::SpeakingStarted]
            },
            !ok ==> {
                &&& final(self).synth_phase() is Free
                &&& final(self).spoken() == old(self).spoken()
                &&& ev_seq(evs@) =~= seq![Ev::SynthesisStopped]
            },
    {
        let mut evs: Vec<Event> = Vec::new();
        evs.push(Event::SynthesisStopped);
        if ok {
            self.phase = SynthPhase::Playing;
            self.spoken = Ghost(self.spoken@.push(self.pending@));
            evs.push(Event::SpeakingStarted);
        } else {
            self.phase = SynthPhase::Free;
        }
        evs
    }

    /// Playback of the current line is complete: release the resource.
    pub fn finish_playback(&mut self) -> (evs: Vec<Event>)
        requires
            old(self).synth_phase() is Playing,
        ensures
            final(self).synth_phase() is Free,
            final(self).spoken() == old(self).spoken(),
            final(self).chosen_voice() == old(self).chosen_voice(),
            ev_seq(evs@) =~= seq![Ev::SpeakingStopped],
    {
        self.phase = SynthPhase::Free;
        let mut evs: Vec<Event> = Vec::new();
        evs.push(Event::SpeakingStopped);
        evs
    }

    /// One whole speak cycle for one line, given whether the backend
    /// succeeded on it: emits exactly `speak_trace(speak_ok)` and, on
    /// success, appends the prompt to the record of spoken texts. The
    /// caller blocks for the whole cycle, so listening and responding never
    /// overlap.
    pub fn synthesize_text(&mut self, prompt: &str, speak_ok: bool) -> (evs: Vec<Event>)
        requires
            old(self).synth_phase() is Free,
        ensures
            final(self).synth_phase() is Free,
            final(self).chosen_voice() == old(self).chosen_voice(),
            ev_seq(evs@) =~= speak_trace(speak_ok),
            final(self).spoken() =~= if speak_ok {
                old(self).spoken().push(prompt@)
            } else {
                old(self).spoken()
            },
    {
        let mut evs = self.begin_synthesis(prompt);
        let ghost e0 = evs@;
        let mut rest = self.finish_synthesis(speak_ok);
        let ghost e1 = rest@;
        evs.append(&mut rest);
        proof {
            lemma_ev_seq_concat(e0, e1);
        }
        if speak_ok {
            let ghost e01 = evs@;
            let mut tail = self.finish_playback();
            let ghost e2 = tail@;
            evs.append(&mut tail);
            proof {
                lemma_ev_seq_concat(e01, e2);
                assert(ev_seq(evs@) =~= speak_trace(speak_ok));
            }
        } else {
            proof {
                assert(ev_seq(evs@) =~= speak_trace(speak_ok));
            }
        }
        evs
    }
}

/// Law (singleton playback): in the trace of two consecutive completed
/// speak cycles, any two `speaking-started` events are separated by a
/// `speaking-stopped` — the second playback cannot begin before the first
/// has ended, whatever each cycle's outcome was.
pub proof fn lemma_speak_serialized(ok1: bool, ok2: bool)
    ensures
        forall|i: int, j: int|
            0 <= i < j < (speak_trace(ok1) + speak_trace(ok2)).len()
                && (speak_trace(ok1) + speak_trace(ok2))[i] is SpeakingStarted
                && (speak_trace(ok1) + speak_trace(ok2))[j] is SpeakingStarted
                ==> exists|k: int|
                i < k < j && (speak_trace(ok1) + speak_trace(ok2))[k] is SpeakingStopped,
{
    let t = speak_trace(ok1) + speak_trace(ok2);
    assert forall|i: int, j: int|
        0 <= i < j < t.len() && t[i] is SpeakingStarted && t[j] is SpeakingStarted
        implies exists|k: int| i < k < j && t[k] is SpeakingStopped by {
        assert(ok1 && ok2 && i == 2 && j == 6);
        assert(t[3] is SpeakingStopped);
        assert(i < 3 < j && t[3] is SpeakingStopped);
    }
}

} // verus!
