//! The conversation loop: announce each captured segment, transcribe it,
//! speak every recognized line, and discard the segment that follows a
//! response as probable echo.

use vstd::prelude::*;

use crate::event::{ev_seq, lemma_ev_seq_concat, Ev, Event};
use crate::synthesize::{speak_trace, TtsState};

verus! {

/// What one recognized line led to: its text, and whether the synthesizer
/// succeeded on it. A failed line downgrades to a no-op playback; it never
/// ends the session.
#[derive(PartialEq, Eq, Debug)]
pub struct LineOutcome {
    pub text: String,
    pub speak_ok: bool,
}

/// What the transcription model returned for one segment.
#[derive(PartialEq, Eq, Debug)]
pub enum Transcription {
    /// the model failed on this segment; treated as zero lines
    Failed,
    /// the recognized lines, in recognition order
    Lines(Vec<LineOutcome>),
}

/// One captured speech segment together with what the collaborators made
/// of it. The loop's decisions depend only on these plain values; the
/// capture device and the models hand them in from outside.
#[derive(PartialEq, Eq, Debug)]
pub struct SegmentOutcome {
    pub duration_ms: u64,
    pub transcription: Transcription,
}

/// Control state of the conversation loop.
#[derive(Clone, Copy, PartialEq, Eq, Structural, Debug)]
pub enum LoopPhase {
    /// waiting for the next speech segment
    Listening,
    /// a segment has arrived and been announced; transcription has not begun
    Detected,
    /// pulling recognized lines for the current segment
    Transcribing,
    /// speaking the current line; no further line is pulled meanwhile
    Responding,
    /// the next segment will be discarded as probable echo
    SkipEcho,
    /// the capture stream ended
    Ended,
}

/// The events one spoken line contributes to the segment's trace.
pub open spec fn line_trace(l: LineOutcome) -> Seq<Ev> {
    seq![Ev::TranscriptionLine(l.text@)] + speak_trace(l.speak_ok)
}

/// The events a run of recognized lines contributes, in recognition order.
pub open spec fn lines_trace(ls: Seq<LineOutcome>) -> Seq<Ev>
    decreases ls.len(),
{
    if ls.len() == 0 {
        Seq::<Ev>::empty()
    } else {
        line_trace(ls[0]) + lines_trace(ls.drop_first())
    }
}

/// The texts of a run of lines whose playback began, in order.
pub open spec fn spoken_of(ls: Seq<LineOutcome>) -> Seq<Seq<char>>
    decreases ls.len(),
{
    if ls.len() == 0 {
        Seq::<Seq<char>>::empty()
    } else {
        (if ls[0].speak_ok {
            seq![ls[0].text@]
        } else {
            Seq::<Seq<char>>::empty()
        }) + spoken_of(ls.drop_first())
    }
}

/// The events one segment's transcription cycle emits: `transcription-started`
/// and `transcription-stopped` always — even for zero lines — with one line
/// block per recognized line in between. A model failure counts as zero lines.
pub open spec fn transcript_trace(t: Transcription) -> Seq<Ev> {
    seq![Ev::TranscriptionStarted] + (match t {
        Transcription::Failed => Seq::<Ev>::empty(),
        Transcription::Lines(ls) => lines_trace(ls@),
    }) + seq![Ev::TranscriptionStopped]
}

/// The texts a segment's cycle plays back.
pub open spec fn spoken_lines(t: Transcription) -> Seq<Seq<char>> {
    match t {
        Transcription::Failed => Seq::<Seq<char>>::empty(),
        Transcription::Lines(ls) => spoken_of(ls@),
    }
}

/// The events one processed segment emits: its announcement, then its
/// transcription cycle.
pub open spec fn segment_trace(s: SegmentOutcome) -> Seq<Ev> {
    seq![Ev::SpeechDetected(s.duration_ms)] + transcript_trace(s.transcription)
}

/// The events a run of segments emits. While `skipping`, the first segment
/// is discarded without a trace — it is the probable echo of the response
/// that was just played — and listening resumes with the one after it.
pub open spec fn session_trace_from(ss: Seq<SegmentOutcome>, skipping: bool) -> Seq<Ev>
    decreases ss.len(),
{
    if ss.len() == 0 {
        Seq::<Ev>::empty()
    } else if skipping {
        session_trace_from(ss.drop_first(), false)
    } else {
        segment_trace(ss[0]) + session_trace_from(ss.drop_first(), true)
    }
}

/// The events a whole session over a run of segments emits.
pub open spec fn session_trace(ss: Seq<SegmentOutcome>) -> Seq<Ev> {
    session_trace_from(ss, false)
}

/// The texts a run of segments plays back, echo skipping included.
pub open spec fn session_spoken_from(ss: Seq<SegmentOutcome>, skipping: bool) -> Seq<Seq<char>>
    decreases ss.len(),
{
    if ss.len() == 0 {
        Seq::<Seq<char>>::empty()
    } else if skipping {
        session_spoken_from(ss.drop_first(), false)
    } else {
        spoken_lines(ss[0].transcription) + session_spoken_from(ss.drop_first(), true)
    }
}

/// The texts a whole session plays back.
pub open spec fn session_spoken(ss: Seq<SegmentOutcome>) -> Seq<Seq<char>> {
    session_spoken_from(ss, false)
}

/// The conversation loop's control state. One value of this type drives one
/// session: the caller pulls segments, lines and synthesis outcomes from the
/// collaborators and feeds them in; every method says exactly which events
/// it emits and which phase comes next.
pub struct Conversation {
    phase: LoopPhase,
}

impl Conversation {
    /// The phase the loop is in.
    pub closed spec fn loop_phase(self) -> LoopPhase {
        self.phase
    }

    pub fn new() -> (c: Conversation)
        ensures
            c.loop_phase() is Listening,
    {
        Conversation { phase: LoopPhase::Listening }
    }

    /// The phase the loop is in, for the caller driving it.
    pub fn current_phase(&self) -> (p: LoopPhase)
        ensures
            p == self.loop_phase(),
    {
        self.phase
    }

    /// The next segment arrived. While listening it is announced with its
    /// duration and the loop turns to transcription; right after a response
    /// it is discarded without any event — the echo-suppression step
    /// consumes exactly this one segment.
    pub fn on_segment(&mut self, duration_ms: u64) -> (evs: Vec<Event>)
        requires
            old(self).loop_phase() is Listening || old(self).loop_phase() is SkipEcho,
        ensures
            old(self).loop_phase() is Listening ==> (final(self).loop_phase() is Detected
                && ev_seq(evs@) =~= seq![Ev::SpeechDetected(duration_ms)]),
            old(self).loop_phase() is SkipEcho ==> (final(self).loop_phase() is Listening
                && ev_seq(evs@) =~= Seq::<Ev>::empty()),
    {
        let mut evs: Vec<Event> = Vec::new();
        if self.phase == LoopPhase::Listening {
            self.phase = LoopPhase::Detected;
            evs.push(Event::SpeechDetected { duration_ms });
        } else {
            self.phase = LoopPhase::Listening;
        }
        evs
    }

    /// Transcription of the announced segment begins.
    pub fn begin_transcription(&mut self) -> (evs: Vec<Event>)
        requires
            old(self).loop_phase() is Detected,
        ensures
            final(self).loop_phase() is Transcribing,
            ev_seq(evs@) =~= seq![Ev::TranscriptionStarted],
    {
        self.phase = LoopPhase::Transcribing;
        let mut evs: Vec<Event> = Vec::new();
        evs.push(Event::TranscriptionStarted);
        evs
    }

    /// One line was recognized: it is emitted, and the loop turns to
    /// responding — no further line is pulled until the response is done.
    pub fn on_line(&mut self, text: &str) -> (evs: Vec<Event>)
        requires
            old(self).loop_phase() is Transcribing,
        ensures
            final(self).loop_phase() is Responding,
            ev_seq(evs@) =~= seq![Ev::TranscriptionLine(text@)],
    {
        self.phase = LoopPhase::Responding;
        let mut evs: Vec<Event> = Vec::new();
        evs.push(Event::TranscriptionLine { text: text.to_owned() });
        evs
    }

    /// The response for the current line has been played; pull the next.
    pub fn line_done(&mut self)
        requires
            old(self).loop_phase() is Responding,
        ensures
            final(self).loop_phase() is Transcribing,
    {
        self.phase = LoopPhase::Transcribing;
    }

    /// The segment yielded no further line, or the model failed on it —
    /// failure counts as zero lines and never ends the session. Either way
    /// the cycle closes and the next segment will be discarded as echo.
    pub fn end_transcription(&mut self) -> (evs: Vec<Event>)
        requires
            old(self).loop_phase() is Transcribing,
        ensures
            final(self).loop_phase() is SkipEcho,
            ev_seq(evs@) =~= seq![Ev::TranscriptionStopped],
    {
        self.phase = LoopPhase::SkipEcho;
        let mut evs: Vec<Event> = Vec::new();
        evs.push(Event::TranscriptionStopped);
        evs
    }

    /// The capture stream ended: the session is over. No event is emitted;
    /// the controller's slot still holds the finished session until the
    /// next control call reconciles it.
    pub fn on_stream_end(&mut self)
        requires
            old(self).loop_phase() is Listening || old(self).loop_phase() is SkipEcho,
        ensures
            final(self).loop_phase() is Ended,
    {
        self.phase = LoopPhase::Ended;
    }
}

/// Run one announced segment through transcription and response: emit
/// `transcription-started`, then — unless the model failed — one line block
/// per recognized line, each line spoken to completion before the next is
/// pulled, and finally `transcription-stopped`. The loop then waits to
/// discard the next segment as echo.
pub fn transcribe_audio(conv: &mut Conversation, tts: &mut TtsState, t: &Transcription) -> (evs:
    Vec<Event>)
    requires
        old(conv).loop_phase() is Detected,
        old(tts).synth_phase() is Free,
    ensures
        final(conv).loop_phase() is SkipEcho,
        final(tts).synth_phase() is Free,
        final(tts).chosen_voice() == old(tts).chosen_voice(),
        ev_seq(evs@) =~= transcript_trace(*t),
        final(tts).spoken() =~= old(tts).spoken() + spoken_lines(*t),
{
    let mut evs = conv.begin_transcription();
    match t {
        Transcription::Failed => {},
        Transcription::Lines(lines) => {
            let mut i: usize = 0;
            proof {
                assert(lines@.skip(0) =~= lines@);
                assert(ev_seq(evs@) + lines_trace(lines@) =~= seq![Ev::TranscriptionStarted]
                    + lines_trace(lines@));
            }
            while i < lines.len()
                invariant
                    i <= lines@.len(),
                    conv.loop_phase() is Transcribing,
                    tts.synth_phase() is Free,
                    tts.chosen_voice() == old(tts).chosen_voice(),
                    ev_seq(evs@) + lines_trace(lines@.skip(i as int)) =~= seq![
                        Ev::TranscriptionStarted,
                    ] + lines_trace(lines@),
                    tts.spoken() + spoken_of(lines@.skip(i as int)) =~= old(tts).spoken()
                        + spoken_of(lines@),
                decreases lines@.len() - i,
            {
                proof {
                    assert(lines@.skip(i as int).drop_first() =~= lines@.skip(i as int + 1));
                    assert(lines@.skip(i as int)[0] == lines@[i as int]);
                }
                let line = &lines[i];
                let ghost evs0 = evs@;
                let ghost spoken0 = tts.spoken();
                let mut e1 = conv.on_line(line.text.as_str());
                let ghost g1 = e1@;
                evs.append(&mut e1);
                let mut e2 = tts.synthesize_text(line.text.as_str(), line.speak_ok);
                let ghost g2 = e2@;
                evs.append(&mut e2);
                conv.line_done();
                proof {
                    lemma_ev_seq_concat(evs0, g1);
                    lemma_ev_seq_concat(evs0 + g1, g2);
                    assert(evs@ =~= (evs0 + g1) + g2);
                    assert(ev_seq(g1) + ev_seq(g2) =~= line_trace(lines@[i as int]));
                    assert(lines_trace(lines@.skip(i as int)) =~= line_trace(lines@[i as int])
                        + lines_trace(lines@.skip(i as int + 1)));
                    assert(ev_seq(evs@) + lines_trace(lines@.skip(i as int + 1)) =~= ev_seq(evs0)
                        + lines_trace(lines@.skip(i as int)));
                    assert(spoken_of(lines@.skip(i as int)) =~= (if lines@[i as int].speak_ok {
                        seq![lines@[i as int].text@]
                    } else {
                        Seq::<Seq<char>>::empty()
                    }) + spoken_of(lines@.skip(i as int + 1)));
                    assert(tts.spoken() + spoken_of(lines@.skip(i as int + 1)) =~= spoken0
                        + spoken_of(lines@.skip(i as int)));
                }
                i += 1;
            }
            proof {
                assert(lines@.skip(lines@.len() as int) =~= Seq::<LineOutcome>::empty());
                assert(ev_seq(evs@) =~= seq![Ev::TranscriptionStarted] + lines_trace(lines@));
                assert(tts.spoken() =~= old(tts).spoken() + spoken_of(lines@));
            }
        },
    }
    let ghost evs_a = evs@;
    let mut e3 = conv.end_transcription();
    let ghost g3 = e3@;
    evs.append(&mut e3);
    proof {
        lemma_ev_seq_concat(evs_a, g3);
        assert(ev_seq(evs@) =~= transcript_trace(*t));
        assert(tts.spoken() =~= old(tts).spoken() + spoken_lines(*t));
    }
    evs
}

/// Run a whole session over a finite run of captured segments, as the
/// background task does until the capture stream ends: announce and process
/// one segment, discard the next as echo, and repeat. The emitted events
/// are exactly `session_trace` of the run, and the played-back texts extend
/// the synthesizer's record by exactly `session_spoken` of the run.
pub fn voice_activity_detection(
    conv: &mut Conversation,
    tts: &mut TtsState,
    segments: &Vec<SegmentOutcome>,
) -> (evs: Vec<Event>)
    requires
        old(conv).loop_phase() is Listening,
        old(tts).synth_phase() is Free,
    ensures
        final(conv).loop_phase() is Ended,
        final(tts).synth_phase() is Free,
        final(tts).chosen_voice() == old(tts).chosen_voice(),
        ev_seq(evs@) =~= session_trace(segments@),
        final(tts).spoken() =~= old(tts).spoken() + session_spoken(segments@),
{
    let mut evs: Vec<Event> = Vec::new();
    let mut i: usize = 0;
    proof {
        assert(segments@.skip(0) =~= segments@);
        assert(ev_seq(evs@) + session_trace(segments@) =~= session_trace(segments@));
        assert(tts.spoken() + session_spoken(segments@) =~= old(tts).spoken() + session_spoken(
            segments@,
        ));
    }
    while i < segments.len()
        invariant
            i <= segments@.len(),
            conv.loop_phase() is Listening || conv.loop_phase() is SkipEcho,
            tts.synth_phase() is Free,
            tts.chosen_voice() == old(tts).chosen_voice(),
            ev_seq(evs@) + session_trace_from(
                segments@.skip(i as int),
                conv.loop_phase() is SkipEcho,
            ) =~= session_trace(segments@),
            tts.spoken() + session_spoken_from(
                segments@.skip(i as int),
                conv.loop_phase() is SkipEcho,
            ) =~= old(tts).spoken() + session_spoken(segments@),
        decreases segments@.len() - i,
    {
        proof {
            assert(segments@.skip(i as int).drop_first() =~= segments@.skip(i as int + 1));
            assert(segments@.skip(i as int)[0] == segments@[i as int]);
        }
        let seg = &segments[i];
        let skipping = conv.current_phase() == LoopPhase::SkipEcho;
        let ghost evs0 = evs@;
        let ghost spoken0 = tts.spoken();
        let mut e1 = conv.on_segment(seg.duration_ms);
        let ghost g1 = e1@;
        evs.append(&mut e1);
        if !skipping {
            let mut e2 = transcribe_audio(conv, tts, &seg.transcription);
            let ghost g2 = e2@;
            evs.append(&mut e2);
            proof {
                lemma_ev_seq_concat(evs0, g1);
                lemma_ev_seq_concat(evs0 + g1, g2);
                assert(evs@ =~= (evs0 + g1) + g2);
                assert(ev_seq(g1) + ev_seq(g2) =~= segment_trace(segments@[i as int]));
                assert(session_trace_from(segments@.skip(i as int), false) =~= segment_trace(
                    segments@[i as int],
                ) + session_trace_from(segments@.skip(i as int + 1), true));
                assert(ev_seq(evs@) + session_trace_from(segments@.skip(i as int + 1), true)
                    =~= ev_seq(evs0) + session_trace_from(segments@.skip(i as int), false));
                assert(session_spoken_from(segments@.skip(i as int), false) =~= spoken_lines(
                    segments@[i as int].transcription,
                ) + session_spoken_from(segments@.skip(i as int + 1), true));
                assert(tts.spoken() + session_spoken_from(segments@.skip(i as int + 1), true)
                    =~= spoken0 + session_spoken_from(segments@.skip(i as int), false));
            }
        } else {
            proof {
                lemma_ev_seq_concat(evs0, g1);
                assert(ev_seq(evs@) =~= ev_seq(evs0));
                assert(session_trace_from(segments@.skip(i as int), true) =~= session_trace_from(
                    segments@.skip(i as int + 1),
                    false,
                ));
                assert(session_spoken_from(segments@.skip(i as int), true) =~= session_spoken_from(
                    segments@.skip(i as int + 1),
                    false,
                ));
            }
        }
        i += 1;
    }
    proof {
        assert(segments@.skip(segments@.len() as int) =~= Seq::<SegmentOutcome>::empty());
        assert(ev_seq(evs@) =~= session_trace(segments@));
        assert(tts.spoken() =~= old(tts).spoken() + session_spoken(segments@));
    }
    conv.on_stream_end();
    evs
}

/// The per-line event blocks of a run of all-successful lines: five events
/// per line, in a fixed order.
pub proof fn lemma_lines_trace_blocks(ls: Seq<LineOutcome>)
    requires
        forall|i: int| 0 <= i < ls.len() ==> (#[trigger] ls[i]).speak_ok,
    ensures
        lines_trace(ls).len() == 5 * ls.len(),
        forall|i: int|
            #![trigger ls[i]]
            0 <= i < ls.len() ==> {
                &&& lines_trace(ls)[5 * i] == Ev::TranscriptionLine(ls[i].text@)
                &&& lines_trace(ls)[5 * i + 1] == Ev::SynthesisStarted
                &&& lines_trace(ls)[5 * i + 2] == Ev::SynthesisStopped
                &&& lines_trace(ls)[5 * i + 3] == Ev::SpeakingStarted
                &&& lines_trace(ls)[5 * i + 4] == Ev::SpeakingStopped
            },
    decreases ls.len(),
{
    if ls.len() == 0 {
    } else {
        let rest = ls.drop_first();
        assert forall|i: int| 0 <= i < rest.len() implies (#[trigger] rest[i]).speak_ok by {
            assert(rest[i] == ls[i + 1]);
        }
        lemma_lines_trace_blocks(rest);
        assert(ls[0].speak_ok);
        let head = line_trace(ls[0]);
        assert(head =~= seq![
            Ev::TranscriptionLine(ls[0].text@),
            Ev::SynthesisStarted,
            Ev::SynthesisStopped,
            Ev::SpeakingStarted,
            Ev::SpeakingStopped,
        ]);
        assert(lines_trace(ls) == head + lines_trace(rest));
        assert forall|i: int|
            #![trigger ls[i]]
            0 <= i < ls.len() implies {
            &&& lines_trace(ls)[5 * i] == Ev::TranscriptionLine(ls[i].text@)
            &&& lines_trace(ls)[5 * i + 1] == Ev::SynthesisStarted
            &&& lines_trace(ls)[5 * i + 2] == Ev::SynthesisStopped
            &&& lines_trace(ls)[5 * i + 3] == Ev::SpeakingStarted
            &&& lines_trace(ls)[5 * i + 4] == Ev::SpeakingStopped
        } by {
            if i == 0 {
            } else {
                assert(rest[i - 1] == ls[i]);
                assert(lines_trace(rest)[5 * (i - 1)] == Ev::TranscriptionLine(rest[i - 1].text@));
                assert(5 * i - 5 == 5 * (i - 1));
                assert(lines_trace(ls)[5 * i] == lines_trace(rest)[5 * i - 5]);
                assert(lines_trace(ls)[5 * i + 1] == lines_trace(rest)[5 * (i - 1) + 1]);
                assert(lines_trace(ls)[5 * i + 2] == lines_trace(rest)[5 * (i - 1) + 2]);
                assert(lines_trace(ls)[5 * i + 3] == lines_trace(rest)[5 * (i - 1) + 3]);
                assert(lines_trace(ls)[5 * i + 4] == lines_trace(rest)[5 * (i - 1) + 4]);
            }
        }
    }
}

/// Law (event order per segment): a segment whose `k` lines were all spoken
/// successfully yields exactly `speech-detected`, `transcription-started`,
/// then for each line in order `transcription-line`, `synthesis-started`,
/// `synthesis-stopped`, `speaking-started`, `speaking-stopped`, and finally
/// `transcription-stopped`.
pub proof fn lemma_segment_event_order(s: SegmentOutcome, ls: Seq<LineOutcome>)
    requires
        s.transcription is Lines,
        s.transcription->Lines_0@ == ls,
        forall|i: int| 0 <= i < ls.len() ==> (#[trigger] ls[i]).speak_ok,
    ensures
        segment_trace(s).len() == 3 + 5 * ls.len(),
        segment_trace(s)[0] == Ev::SpeechDetected(s.duration_ms),
        segment_trace(s)[1] == Ev::TranscriptionStarted,
        segment_trace(s).last() == Ev::TranscriptionStopped,
        forall|i: int|
            #![trigger ls[i]]
            0 <= i < ls.len() ==> {
                &&& segment_trace(s)[2 + 5 * i] == Ev::TranscriptionLine(ls[i].text@)
                &&& segment_trace(s)[3 + 5 * i] == Ev::SynthesisStarted
                &&& segment_trace(s)[4 + 5 * i] == Ev::SynthesisStopped
                &&& segment_trace(s)[5 + 5 * i] == Ev::SpeakingStarted
                &&& segment_trace(s)[6 + 5 * i] == Ev::SpeakingStopped
            },
{
    lemma_lines_trace_blocks(ls);
    let lt = lines_trace(ls);
    let st = segment_trace(s);
    assert(st =~= seq![Ev::SpeechDetected(s.duration_ms), Ev::TranscriptionStarted] + lt + seq![
        Ev::TranscriptionStopped,
    ]);
    assert forall|i: int|
        #![trigger ls[i]]
        0 <= i < ls.len() implies {
        &&& st[2 + 5 * i] == Ev::TranscriptionLine(ls[i].text@)
        &&& st[3 + 5 * i] == Ev::SynthesisStarted
        &&& st[4 + 5 * i] == Ev::SynthesisStopped
        &&& st[5 + 5 * i] == Ev::SpeakingStarted
        &&& st[6 + 5 * i] == Ev::SpeakingStopped
    } by {
        assert(st[2 + 5 * i] == lt[5 * i]);
        assert(st[3 + 5 * i] == lt[5 * i + 1]);
        assert(st[4 + 5 * i] == lt[5 * i + 2]);
        assert(st[5 + 5 * i] == lt[5 * i + 3]);
        assert(st[6 + 5 * i] == lt[5 * i + 4]);
    }
}

/// The segments a session actually processes: every other one, starting
/// with the first; the ones in between are consumed by echo suppression.
pub open spec fn processed_segments(ss: Seq<SegmentOutcome>) -> Seq<SegmentOutcome>
    decreases ss.len(),
{
    if ss.len() == 0 {
        Seq::<SegmentOutcome>::empty()
    } else if ss.len() == 1 {
        seq![ss[0]]
    } else {
        seq![ss[0]] + processed_segments(ss.skip(2))
    }
}

/// The concatenated traces of a run of segments, each processed in full.
pub open spec fn traces_of(ss: Seq<SegmentOutcome>) -> Seq<Ev>
    decreases ss.len(),
{
    if ss.len() == 0 {
        Seq::<Ev>::empty()
    } else {
        segment_trace(ss[0]) + traces_of(ss.drop_first())
    }
}

/// The processed segments are exactly the even-indexed ones.
pub proof fn lemma_processed_even_indexed(ss: Seq<SegmentOutcome>)
    ensures
        processed_segments(ss).len() == (ss.len() + 1) / 2,
        forall|k: int|
            #![trigger processed_segments(ss)[k]]
            0 <= k < processed_segments(ss).len() ==> processed_segments(ss)[k] == ss[2 * k],
    decreases ss.len(),
{
    if ss.len() <= 1 {
    } else {
        let tail = ss.skip(2);
        lemma_processed_even_indexed(tail);
        let p = processed_segments(ss);
        assert(p == seq![ss[0]] + processed_segments(tail));
        assert forall|k: int|
            #![trigger p[k]]
            0 <= k < p.len() implies p[k] == ss[2 * k] by {
            if k == 0 {
            } else {
                assert(p[k] == processed_segments(tail)[k - 1]);
                assert(processed_segments(tail)[k - 1] == tail[2 * (k - 1)]);
                assert(tail[2 * (k - 1)] == ss[2 * (k - 1) + 2]);
                assert(2 * (k - 1) + 2 == 2 * k);
            }
        }
    }
}

/// Law (echo suppression, in general): a session's trace is exactly the
/// concatenated traces of the even-indexed segments; each odd-indexed one is
/// consumed silently, as the probable echo of the response before it.
pub proof fn lemma_session_skips_alternate(ss: Seq<SegmentOutcome>)
    ensures
        session_trace(ss) =~= traces_of(processed_segments(ss)),
    decreases ss.len(),
{
    if ss.len() == 0 {
    } else if ss.len() == 1 {
        assert(ss.drop_first() =~= Seq::<SegmentOutcome>::empty());
        let p = processed_segments(ss);
        assert(p == seq![ss[0]]);
        assert(p.drop_first() =~= Seq::<SegmentOutcome>::empty());
        assert(session_trace_from(Seq::<SegmentOutcome>::empty(), true) =~= Seq::<Ev>::empty());
        assert(traces_of(Seq::<SegmentOutcome>::empty()) =~= Seq::<Ev>::empty());
        assert(session_trace(ss) =~= segment_trace(ss[0]) + Seq::<Ev>::empty());
        assert(traces_of(p) =~= segment_trace(ss[0]) + Seq::<Ev>::empty());
    } else {
        lemma_session_skips_alternate(ss.skip(2));
        assert(ss.drop_first().drop_first() =~= ss.skip(2));
        let p = processed_segments(ss);
        assert(p == seq![ss[0]] + processed_segments(ss.skip(2)));
        assert(p[0] == ss[0]);
        assert(p.drop_first() =~= processed_segments(ss.skip(2)));
        assert(session_trace_from(ss.drop_first(), true) == session_trace_from(
            ss.drop_first().drop_first(),
            false,
        ));
        assert(session_trace(ss) =~= segment_trace(ss[0]) + session_trace(ss.skip(2)));
        assert(traces_of(p) =~= segment_trace(ss[0]) + traces_of(processed_segments(ss.skip(2))));
    }
}

/// Law (echo suppression consumes exactly one segment): of three captured
/// segments, the first is processed in full, the second — the probable echo
/// of the response to the first — contributes no event at all, and the third
/// is processed in full again.
pub proof fn lemma_echo_skips_one(s1: SegmentOutcome, s2: SegmentOutcome, s3: SegmentOutcome)
    ensures
        session_trace(seq![s1, s2, s3]) =~= segment_trace(s1) + segment_trace(s3),
{
    let ss = seq![s1, s2, s3];
    assert(ss.drop_first() =~= seq![s2, s3]);
    assert(seq![s2, s3].drop_first() =~= seq![s3]);
    assert(seq![s3].drop_first() =~= Seq::<SegmentOutcome>::empty());
    assert(session_trace_from(Seq::<SegmentOutcome>::empty(), true) =~= Seq::<Ev>::empty());
    assert(session_trace_from(seq![s3], false) =~= segment_trace(s3) + Seq::<Ev>::empty());
    assert(session_trace_from(seq![s2, s3], true) == session_trace_from(seq![s3], false));
    assert(session_trace(ss) =~= segment_trace(s1) + session_trace_from(seq![s2, s3], true));
}

/// Law (recoverable transcription failure): a segment the model failed on
/// still opens and closes its transcription cycle, emits no line and no
/// synthesis or playback event, and the session goes on: the echo-skip step
/// still follows it and the segment after the skipped one is processed in
/// full.
pub proof fn lemma_failure_recoverable(s1: SegmentOutcome, s2: SegmentOutcome, s3: SegmentOutcome)
    requires
        s1.transcription is Failed,
    ensures
        segment_trace(s1) =~= seq![
            Ev::SpeechDetected(s1.duration_ms),
            Ev::TranscriptionStarted,
            Ev::TranscriptionStopped,
        ],
        forall|i: int|
            0 <= i < segment_trace(s1).len() ==> !(#[trigger] segment_trace(s1)[i]
                is TranscriptionLine),
        session_trace(seq![s1, s2, s3]) =~= seq![
            Ev::SpeechDetected(s1.duration_ms),
            Ev::TranscriptionStarted,
            Ev::TranscriptionStopped,
        ] + segment_trace(s3),
{
    lemma_echo_skips_one(s1, s2, s3);
    assert(transcript_trace(s1.transcription) =~= seq![
        Ev::TranscriptionStarted,
        Ev::TranscriptionStopped,
    ]);
    assert(segment_trace(s1) =~= seq![
        Ev::SpeechDetected(s1.duration_ms),
        Ev::TranscriptionStarted,
        Ev::TranscriptionStopped,
    ]);
}

} // verus!
