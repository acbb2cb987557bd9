use voiceloop::event::Event;
use voiceloop::synthesize::{InitError, SynthPhase, TtsState};

fn names(list: &[&str]) -> Vec<String> {
    list.iter().map(|s| s.to_string()).collect()
}

#[test]
fn init_selects_first_preferred_voice() {
    let voices = names(&["Albert", "Ava", "Ava"]);
    let tts = TtsState::init_tts(true, &voices).unwrap();
    assert_eq!(tts.voice_index(), Some(1));
    assert_eq!(tts.current_phase(), SynthPhase::Free);
}

#[test]
fn init_fails_when_preferred_voice_missing() {
    let voices = names(&["Albert", "Victoria"]);
    let r = TtsState::init_tts(true, &voices);
    assert_eq!(r.err(), Some(InitError::VoiceUnavailable));
}

#[test]
fn init_without_voice_selection_sets_none() {
    let tts = TtsState::init_tts(false, &Vec::new()).unwrap();
    assert_eq!(tts.voice_index(), None);
}

#[test]
fn speak_cycle_emits_phases_in_order() {
    let mut tts = TtsState::init_tts(false, &Vec::new()).unwrap();
    let evs = tts.synthesize_text("good morning", true);
    assert_eq!(
        evs,
        vec![
            Event::SynthesisStarted,
            Event::SynthesisStopped,
            Event::SpeakingStarted,
            Event::SpeakingStopped,
        ]
    );
    assert_eq!(tts.current_phase(), SynthPhase::Free);
}

#[test]
fn speak_failure_skips_playback() {
    let mut tts = TtsState::init_tts(false, &Vec::new()).unwrap();
    let evs = tts.synthesize_text("good morning", false);
    assert_eq!(evs, vec![Event::SynthesisStarted, Event::SynthesisStopped]);
    assert_eq!(tts.current_phase(), SynthPhase::Free);
}

#[test]
fn overlapping_speakers_never_play_together() {
    let mut tts = TtsState::init_tts(false, &Vec::new()).unwrap();

    // First speaker takes the resource through synthesis into playback.
    let mut evs = tts.begin_synthesis("first");
    evs.extend(tts.finish_synthesis(true));
    // A second speaker arriving now finds the resource busy and must wait.
    assert_ne!(tts.current_phase(), SynthPhase::Free);
    evs.extend(tts.finish_playback());
    // Only now can the second speaker begin its own cycle.
    assert_eq!(tts.current_phase(), SynthPhase::Free);
    evs.extend(tts.synthesize_text("second", true));

    let started: Vec<usize> = evs
        .iter()
        .enumerate()
        .filter(|(_, e)| **e == Event::SpeakingStarted)
        .map(|(i, _)| i)
        .collect();
    let stopped: Vec<usize> = evs
        .iter()
        .enumerate()
        .filter(|(_, e)| **e == Event::SpeakingStopped)
        .map(|(i, _)| i)
        .collect();
    assert_eq!(started.len(), 2);
    assert_eq!(stopped.len(), 2);
    // The first playback closes before the second opens.
    assert!(stopped[0] < started[1]);
}
