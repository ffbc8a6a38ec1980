use voca::orb::{is_valid_transition, OrbEngine, OrbState};

fn valid(from: &OrbState, to: &OrbState) -> bool {
    is_valid_transition(from, to)
}

#[test]
fn idle_to_listening_valid() {
    assert!(valid(&OrbState::Idle, &OrbState::Listening));
}

#[test]
fn listening_to_transcribing_valid() {
    assert!(valid(&OrbState::Listening, &OrbState::Transcribing));
}

#[test]
fn transcribing_to_injected_valid() {
    assert!(valid(&OrbState::Transcribing, &OrbState::Injected));
}

#[test]
fn injected_to_idle_valid() {
    assert!(valid(&OrbState::Injected, &OrbState::Idle));
}

#[test]
fn idle_to_transcribing_invalid() {
    assert!(!valid(&OrbState::Idle, &OrbState::Transcribing));
}

#[test]
fn muted_to_listening_invalid() {
    assert!(!valid(&OrbState::Muted, &OrbState::Listening));
}

#[test]
fn no_state_transitions_to_itself() {
    let all = [
        OrbState::Idle,
        OrbState::Listening,
        OrbState::Transcribing,
        OrbState::Injected,
        OrbState::Muted,
    ];
    for s in all.iter() {
        assert!(!valid(s, s));
    }
}

#[test]
fn engine_rejects_invalid_transition_and_stays() {
    let mut orb = OrbEngine::new();
    assert_eq!(*orb.state(), OrbState::Idle);
    assert!(!orb.transition(OrbState::Injected));
    assert_eq!(*orb.state(), OrbState::Idle);
    assert!(orb.transition(OrbState::Listening));
    assert_eq!(*orb.state(), OrbState::Listening);
}

#[test]
fn toggle_mute_twice_from_listening_ends_idle() {
    let mut orb = OrbEngine::new();
    orb.toggle_listening();
    assert_eq!(*orb.state(), OrbState::Listening);
    orb.toggle_mute();
    assert_eq!(*orb.state(), OrbState::Muted);
    orb.toggle_mute();
    assert_eq!(*orb.state(), OrbState::Idle);
}

#[test]
fn toggle_mute_from_transcribing_mutes() {
    let mut orb = OrbEngine::new();
    assert!(orb.transition(OrbState::Listening));
    assert!(orb.transition(OrbState::Transcribing));
    orb.toggle_mute();
    assert_eq!(*orb.state(), OrbState::Muted);
}

#[test]
fn toggle_listening_ignored_when_muted() {
    let mut orb = OrbEngine::new();
    orb.toggle_mute();
    orb.toggle_listening();
    assert_eq!(*orb.state(), OrbState::Muted);
}

#[test]
fn state_names() {
    assert_eq!(OrbState::Idle.as_str(), "idle");
    assert_eq!(OrbState::Listening.to_string(), "listening");
    assert_eq!(OrbState::Transcribing.as_str(), "transcribing");
    assert_eq!(OrbState::Injected.as_str(), "injected");
    assert_eq!(OrbState::Muted.to_string(), "muted");
}
