use voca::inject::InjectionResult;
use voca::orb::OrbState;
use voca::pipeline::{
    AudioOutcome, InjectionFollowUp, Pipeline, PipelineAction, TranscriptOutcome, MIN_SAMPLES,
};

fn listening() -> Pipeline {
    let mut p = Pipeline::new();
    assert_eq!(p.handle_toggle(), PipelineAction::StartCapture);
    assert!(p.on_capture_started());
    assert_eq!(p.orb_state(), OrbState::Listening);
    p
}

#[test]
fn full_round_types_text() {
    let mut p = listening();
    assert_eq!(p.handle_toggle(), PipelineAction::StopAndTranscribe);
    assert_eq!(p.orb_state(), OrbState::Transcribing);
    assert_eq!(p.on_audio(16_000, true), AudioOutcome::Transcribe);
    assert_eq!(p.on_transcript(&Ok("hello".to_string())), TranscriptOutcome::Inject);
    assert_eq!(p.on_injection(&InjectionResult::Injected), InjectionFollowUp::Done);
    assert_eq!(p.orb_state(), OrbState::Injected);
    assert_eq!(p.get_state_str(), "injected");
    p.handle_dismiss();
    assert_eq!(p.orb_state(), OrbState::Idle);
}

#[test]
fn short_audio_is_discarded() {
    let mut p = listening();
    p.handle_stop();
    assert_eq!(p.on_audio(MIN_SAMPLES - 1, true), AudioOutcome::TooShort);
    assert_eq!(p.orb_state(), OrbState::Idle);
}

#[test]
fn exactly_min_samples_is_transcribed() {
    let mut p = listening();
    p.handle_stop();
    assert_eq!(p.on_audio(1_600, true), AudioOutcome::Transcribe);
    assert_eq!(p.orb_state(), OrbState::Transcribing);
}

#[test]
fn missing_model_goes_idle() {
    let mut p = listening();
    p.handle_stop();
    assert_eq!(p.on_audio(32_000, false), AudioOutcome::ModelMissing);
    assert_eq!(p.orb_state(), OrbState::Idle);
}

#[test]
fn empty_and_failed_transcripts_go_idle() {
    let mut p = listening();
    p.handle_stop();
    assert_eq!(p.on_transcript(&Ok(String::new())), TranscriptOutcome::Empty);
    assert_eq!(p.orb_state(), OrbState::Idle);

    let mut p = listening();
    p.handle_stop();
    assert_eq!(p.on_transcript(&Err("boom".to_string())), TranscriptOutcome::Failed);
    assert_eq!(p.orb_state(), OrbState::Idle);
}

#[test]
fn clipboard_outcomes_show_the_card() {
    let mut p = listening();
    p.handle_stop();
    assert_eq!(p.on_injection(&InjectionResult::Clipboard), InjectionFollowUp::ShowClipboardCard);
    assert_eq!(p.orb_state(), OrbState::Injected);

    let mut p = listening();
    p.handle_stop();
    assert_eq!(
        p.on_injection(&InjectionResult::Failed("no display".to_string())),
        InjectionFollowUp::CopyAndShowClipboardCard
    );
    assert_eq!(p.orb_state(), OrbState::Injected);
}

#[test]
fn start_and_stop_only_act_in_their_states() {
    let mut p = Pipeline::new();
    assert_eq!(p.handle_stop(), PipelineAction::Nothing);
    assert_eq!(p.handle_start(), PipelineAction::StartCapture);
    assert!(p.on_capture_started());
    assert_eq!(p.handle_start(), PipelineAction::Nothing);
    assert_eq!(p.handle_stop(), PipelineAction::StopAndTranscribe);
    assert_eq!(p.handle_toggle(), PipelineAction::Nothing);
}

#[test]
fn mute_discards_the_capture() {
    let mut p = listening();
    p.handle_mute_toggle();
    assert_eq!(p.orb_state(), OrbState::Muted);
    assert_eq!(p.handle_toggle(), PipelineAction::Nothing);
    assert_eq!(p.handle_start(), PipelineAction::Nothing);
    p.handle_mute_toggle();
    assert_eq!(p.orb_state(), OrbState::Idle);
    assert_eq!(p.handle_toggle(), PipelineAction::StartCapture);
}

#[test]
fn late_capture_is_dropped() {
    let mut p = Pipeline::new();
    assert_eq!(p.handle_toggle(), PipelineAction::StartCapture);
    p.handle_mute_toggle();
    assert!(!p.on_capture_started());
    assert_eq!(p.orb_state(), OrbState::Muted);
}

#[test]
fn dismiss_only_leaves_injected() {
    let mut p = listening();
    p.handle_dismiss();
    assert_eq!(p.orb_state(), OrbState::Listening);
}

#[test]
fn default_stt_settings() {
    let p = Pipeline::new();
    assert_eq!(p.stt_config().model_path, "models/ggml-base.bin");
    assert_eq!(p.stt_config().language, "en");
    assert!(p.stt_config().postprocess);
}
