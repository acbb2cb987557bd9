use voiceloop::controller::Controller;
use voiceloop::event::Event;
use voiceloop::transcribe::{
    transcribe_audio, voice_activity_detection, Conversation, LineOutcome, LoopPhase,
    SegmentOutcome, Transcription,
};

fn line(text: &str, speak_ok: bool) -> LineOutcome {
    LineOutcome { text: text.to_string(), speak_ok }
}

fn segment(duration_ms: u64, lines: Vec<LineOutcome>) -> SegmentOutcome {
    SegmentOutcome { duration_ms, transcription: Transcription::Lines(lines) }
}

fn failed_segment(duration_ms: u64) -> SegmentOutcome {
    SegmentOutcome { duration_ms, transcription: Transcription::Failed }
}

fn fresh_tts() -> voiceloop::synthesize::TtsState {
    voiceloop::synthesize::TtsState::init_tts(false, &Vec::new()).unwrap()
}

fn spoken_line_block(text: &str) -> Vec<Event> {
    vec![
        Event::TranscriptionLine { text: text.to_string() },
        Event::SynthesisStarted,
        Event::SynthesisStopped,
        Event::SpeakingStarted,
        Event::SpeakingStopped,
    ]
}

fn full_segment_trace(duration_ms: u64, texts: &[&str]) -> Vec<Event> {
    let mut expected = vec![
        Event::SpeechDetected { duration_ms },
        Event::TranscriptionStarted,
    ];
    for t in texts {
        expected.extend(spoken_line_block(t));
    }
    expected.push(Event::TranscriptionStopped);
    expected
}

#[test]
fn start_twice_spawns_once() {
    let mut ctrl = Controller::new();
    assert!(!ctrl.has_session());
    let (spawn1, evs1) = ctrl.start_vad();
    assert!(spawn1);
    assert_eq!(evs1, vec![Event::MicEnabled]);
    assert!(ctrl.has_session());
    let (spawn2, evs2) = ctrl.start_vad();
    assert!(!spawn2);
    assert_eq!(evs2, Vec::new());
    assert!(ctrl.has_session());
}

#[test]
fn stop_on_idle_is_silent() {
    let mut ctrl = Controller::new();
    let (abort, evs) = ctrl.stop_vad();
    assert!(!abort);
    assert_eq!(evs, Vec::new());
    assert!(!ctrl.has_session());
}

#[test]
fn stop_emits_mic_disabled_exactly_once() {
    let mut ctrl = Controller::new();
    let _ = ctrl.start_vad();
    let (abort1, evs1) = ctrl.stop_vad();
    assert!(abort1);
    assert_eq!(evs1, vec![Event::MicDisabled]);
    let (abort2, evs2) = ctrl.stop_vad();
    assert!(!abort2);
    assert_eq!(evs2, Vec::new());
}

#[test]
fn segment_event_order_two_lines() {
    let mut conv = Conversation::new();
    let mut tts = fresh_tts();
    let mut evs = conv.on_segment(1500);
    assert_eq!(evs, vec![Event::SpeechDetected { duration_ms: 1500 }]);
    let t = Transcription::Lines(vec![line("hello", true), line("there", true)]);
    evs.extend(transcribe_audio(&mut conv, &mut tts, &t));
    assert_eq!(evs, full_segment_trace(1500, &["hello", "there"]));
}

#[test]
fn segment_with_zero_lines_still_brackets() {
    let mut conv = Conversation::new();
    let mut tts = fresh_tts();
    let _ = conv.on_segment(300);
    let evs = transcribe_audio(&mut conv, &mut tts, &Transcription::Lines(Vec::new()));
    assert_eq!(evs, vec![Event::TranscriptionStarted, Event::TranscriptionStopped]);
}

#[test]
fn echo_segment_contributes_nothing() {
    let mut conv = Conversation::new();
    let mut tts = fresh_tts();
    let segments = vec![
        segment(1000, vec![line("one", true)]),
        segment(2000, vec![line("echo of the reply", true)]),
        segment(3000, vec![line("three", true)]),
    ];
    let evs = voice_activity_detection(&mut conv, &mut tts, &segments);
    let mut expected = full_segment_trace(1000, &["one"]);
    expected.extend(full_segment_trace(3000, &["three"]));
    assert_eq!(evs, expected);
    assert!(!evs.contains(&Event::SpeechDetected { duration_ms: 2000 }));
    assert_eq!(conv.current_phase(), LoopPhase::Ended);
}

#[test]
fn failed_transcription_recovers() {
    let mut conv = Conversation::new();
    let mut tts = fresh_tts();
    let segments = vec![
        failed_segment(800),
        segment(100, vec![line("swallowed echo", true)]),
        segment(900, vec![line("still here", true)]),
    ];
    let evs = voice_activity_detection(&mut conv, &mut tts, &segments);
    let mut expected = vec![
        Event::SpeechDetected { duration_ms: 800 },
        Event::TranscriptionStarted,
        Event::TranscriptionStopped,
    ];
    expected.extend(full_segment_trace(900, &["still here"]));
    assert_eq!(evs, expected);
}

#[test]
fn failed_segment_keeps_loop_running() {
    let mut conv = Conversation::new();
    let mut tts = fresh_tts();
    let _ = conv.on_segment(500);
    let evs = transcribe_audio(&mut conv, &mut tts, &Transcription::Failed);
    assert_eq!(evs, vec![Event::TranscriptionStarted, Event::TranscriptionStopped]);
    assert_eq!(conv.current_phase(), LoopPhase::SkipEcho);
}

#[test]
fn speaking_failure_is_downgraded() {
    let mut conv = Conversation::new();
    let mut tts = fresh_tts();
    let _ = conv.on_segment(400);
    let t = Transcription::Lines(vec![line("unspeakable", false), line("fine", true)]);
    let evs = transcribe_audio(&mut conv, &mut tts, &t);
    let mut expected = vec![
        Event::TranscriptionStarted,
        Event::TranscriptionLine { text: "unspeakable".to_string() },
        Event::SynthesisStarted,
        Event::SynthesisStopped,
    ];
    expected.extend(spoken_line_block("fine"));
    expected.push(Event::TranscriptionStopped);
    assert_eq!(evs, expected);
}

#[test]
fn empty_session_emits_nothing() {
    let mut conv = Conversation::new();
    let mut tts = fresh_tts();
    let evs = voice_activity_detection(&mut conv, &mut tts, &Vec::new());
    assert_eq!(evs, Vec::new());
    assert_eq!(conv.current_phase(), LoopPhase::Ended);
}

#[test]
fn session_may_end_on_the_skipped_segment() {
    let mut conv = Conversation::new();
    let mut tts = fresh_tts();
    let segments = vec![
        segment(1000, vec![line("only", true)]),
        segment(2000, vec![line("echo", true)]),
    ];
    let evs = voice_activity_detection(&mut conv, &mut tts, &segments);
    assert_eq!(evs, full_segment_trace(1000, &["only"]));
    assert_eq!(conv.current_phase(), LoopPhase::Ended);
}

#[test]
fn stepping_matches_the_batch_cycle() {
    let mut conv = Conversation::new();
    let mut tts = fresh_tts();
    let mut evs = conv.on_segment(700);
    evs.extend(conv.begin_transcription());
    evs.extend(conv.on_line("hi"));
    evs.extend(tts.synthesize_text("hi", true));
    conv.line_done();
    evs.extend(conv.end_transcription());
    assert_eq!(evs, full_segment_trace(700, &["hi"]));
    assert_eq!(conv.current_phase(), LoopPhase::SkipEcho);
}
