//! Pipeline: the decisions of the audio → speech-to-text → injection flow.
//!
//! ```text
//! user clicks orb
//!   └─ Idle      → toggle → StartCapture → capture opened → Listening
//!   └─ Listening → toggle → StopAndTranscribe              → Transcribing
//!                                  │ audio drained, recognizer runs
//!                                  ▼
//!                 inject text → Injected (typed, or clipboard card)
//!                           or → Idle (too short / no model / empty / error)
//! ```
//!
//! The pipeline owns the orb state machine and whether a capture session is
//! open.  The application shell performs the work that each decision asks
//! for (opening the microphone, draining it, running the recognizer,
//! injecting) and reports the results back.
use vstd::prelude::*;
use crate::inject::InjectionResult;
use crate::orb::{OrbEngine, OrbState, valid_transition, mute_toggled, state_label};
use crate::stt::SttConfig;

verus! {

/// Recordings shorter than this many samples (100 ms at 16 kHz) are
/// discarded.
pub const MIN_SAMPLES: usize = 1_600;

/// What the shell must do after a user command.
#[derive(Clone, Copy, Debug, PartialEq, Eq, Structural)]
pub enum PipelineAction {
    /// Nothing.
    Nothing,
    /// Open the microphone, then report with `on_capture_started`.
    StartCapture,
    /// Stop and drain the capture, then report with `on_audio`.
    StopAndTranscribe,
}

/// The decision once the captured audio is drained.
#[derive(Clone, Copy, Debug, PartialEq, Eq, Structural)]
pub enum AudioOutcome {
    /// Too short to transcribe; back to idle.
    TooShort,
    /// No recognizer (model missing); back to idle, report an error.
    ModelMissing,
    /// Run the recognizer, then report with `on_transcript`.
    Transcribe,
}

/// The decision once the recognizer returned.
#[derive(Clone, Copy, Debug, PartialEq, Eq, Structural)]
pub enum TranscriptOutcome {
    /// Nothing was recognized; back to idle.
    Empty,
    /// Inject the text, then report with `on_injection`.
    Inject,
    /// The recognizer failed; back to idle, report an error.
    Failed,
}

/// What the shell must still do once injection returned.
#[derive(Clone, Copy, Debug, PartialEq, Eq, Structural)]
pub enum InjectionFollowUp {
    /// Nothing more.
    Done,
    /// Show the copy card: the text is on the clipboard.
    ShowClipboardCard,
    /// Put the text on the clipboard as a last resort, then show the card.
    CopyAndShowClipboardCard,
}

/// The action a toggle asks for in state `s`, with or without an open
/// capture.
pub open spec fn toggle_action(s: OrbState, recording: bool) -> PipelineAction {
    match s {
        OrbState::Idle => if recording {
            PipelineAction::Nothing
        } else {
            PipelineAction::StartCapture
        },
        OrbState::Listening => if recording {
            PipelineAction::StopAndTranscribe
        } else {
            PipelineAction::Nothing
        },
        _ => PipelineAction::Nothing,
    }
}

/// The state after asking the orb for `next` in state `s`.
pub open spec fn moved(s: OrbState, next: OrbState) -> OrbState {
    if valid_transition(s, next) {
        next
    } else {
        s
    }
}

/// The decision on drained audio of `samples` samples.
pub open spec fn audio_outcome(samples: nat, engine_ready: bool) -> AudioOutcome {
    if samples < MIN_SAMPLES {
        AudioOutcome::TooShort
    } else if !engine_ready {
        AudioOutcome::ModelMissing
    } else {
        AudioOutcome::Transcribe
    }
}

/// The decision on a recognizer result.
pub open spec fn transcript_outcome(r: Result<String, String>) -> TranscriptOutcome {
    match r {
        Ok(text) => if text@.len() == 0 {
            TranscriptOutcome::Empty
        } else {
            TranscriptOutcome::Inject
        },
        Err(_) => TranscriptOutcome::Failed,
    }
}

/// The follow-up of an injection outcome.
pub open spec fn injection_follow_up(r: InjectionResult) -> InjectionFollowUp {
    match r {
        InjectionResult::Injected => InjectionFollowUp::Done,
        InjectionResult::Clipboard => InjectionFollowUp::ShowClipboardCard,
        InjectionResult::Failed(_) => InjectionFollowUp::CopyAndShowClipboardCard,
    }
}

/// The central coordinator.
pub struct Pipeline {
    orb: OrbEngine,
    /// A capture session is open.
    recording: bool,
    stt_cfg: SttConfig,
}

impl Pipeline {
    /// The orb's state.
    pub closed spec fn state(&self) -> OrbState {
        self.orb.current()
    }

    /// Whether a capture session is open.
    pub closed spec fn recording(&self) -> bool {
        self.recording
    }

    /// The speech-to-text settings.
    pub closed spec fn settings(&self) -> SttConfig {
        self.stt_cfg
    }

    /// The invariant: a listening orb has an open capture, and a capture is
    /// only open while listening or (after a transcription finished while a
    /// newer capture ran) idle.
    pub open spec fn wf(&self) -> bool {
        &&& self.state() == OrbState::Listening ==> self.recording()
        &&& self.recording() ==> self.state() == OrbState::Listening || self.state()
            == OrbState::Idle
    }

    /// A new pipeline: idle, no capture, default speech-to-text settings.
    pub fn new() -> (p: Self)
        ensures
            p.wf(),
            p.state() == OrbState::Idle,
            !p.recording(),
            p.settings().model_path@ == "models/ggml-base.bin"@,
            p.settings().language@ == "en"@,
            p.settings().postprocess,
    {
        Pipeline { orb: OrbEngine::new(), recording: false, stt_cfg: SttConfig::default() }
    }

    /// The speech-to-text settings.
    pub fn stt_config(&self) -> (c: &SttConfig)
        ensures
            *c == self.settings(),
    {
        &self.stt_cfg
    }

    /// The orb's current state.
    pub fn orb_state(&self) -> (s: OrbState)
        ensures
            s == self.state(),
    {
        *self.orb.state()
    }

    /// Start recording, when no capture is open.
    fn begin_recording(&mut self) -> (a: PipelineAction)
        ensures
            a == (if old(self).recording() {
                PipelineAction::Nothing
            } else {
                PipelineAction::StartCapture
            }),
            *final(self) == *old(self),
    {
        if self.recording {
            // already recording
            return PipelineAction::Nothing;
        }
        PipelineAction::StartCapture
    }

    /// Close the capture and move to transcription, when a capture is open.
    fn end_and_transcribe(&mut self) -> (a: PipelineAction)
        ensures
            old(self).recording() ==> a == PipelineAction::StopAndTranscribe && !final(self).recording() && final(self).state() == moved(
                old(self).state(),
                OrbState::Transcribing,
            ),
            !old(self).recording() ==> a == PipelineAction::Nothing && final(self).state() == old(self).state() && !final(self).recording(),
    {
        if !self.recording {
            // no active capture
            return PipelineAction::Nothing;
        }
        self.recording = false;
        self.orb.transition(OrbState::Transcribing);
        PipelineAction::StopAndTranscribe
    }

    /// Toggle: Idle → start a capture; Listening → stop it and transcribe;
    /// ignored in every other state.
    pub fn handle_toggle(&mut self) -> (a: PipelineAction)
        requires
            old(self).wf(),
        ensures
            final(self).wf(),
            a == toggle_action(old(self).state(), old(self).recording()),
            a == PipelineAction::StopAndTranscribe ==> final(self).state()
                == OrbState::Transcribing && !final(self).recording(),
            a != PipelineAction::StopAndTranscribe ==> final(self).state() == old(self).state()
                && final(self).recording() == old(self).recording(),
    {
        let state = *self.orb.state();
        match state {
            OrbState::Idle => self.begin_recording(),
            OrbState::Listening => self.end_and_transcribe(),
            _ => PipelineAction::Nothing,
        }
    }

    /// Explicit start (push-to-talk press): starts a capture when idle.
    pub fn handle_start(&mut self) -> (a: PipelineAction)
        requires
            old(self).wf(),
        ensures
            final(self).wf(),
            a == (if old(self).state() == OrbState::Idle {
                toggle_action(OrbState::Idle, old(self).recording())
            } else {
                PipelineAction::Nothing
            }),
            *final(self) == *old(self),
    {
        let state = *self.orb.state();
        if state == OrbState::Idle {
            self.begin_recording()
        } else {
            PipelineAction::Nothing
        }
    }

    /// Explicit stop (push-to-talk release): stops the capture and moves to
    /// transcription when listening.
    pub fn handle_stop(&mut self) -> (a: PipelineAction)
        requires
            old(self).wf(),
        ensures
            final(self).wf(),
            old(self).state() == OrbState::Listening ==> a == PipelineAction::StopAndTranscribe
                && final(self).state() == OrbState::Transcribing && !final(self).recording(),
            old(self).state() != OrbState::Listening ==> a == PipelineAction::Nothing && final(self).state() == old(self).state() && final(self).recording() == old(self).recording(),
    {
        let state = *self.orb.state();
        if state == OrbState::Listening {
            self.end_and_transcribe()
        } else {
            PipelineAction::Nothing
        }
    }

    /// The microphone opened after `StartCapture`.  Returns whether the shell
    /// keeps the capture: it does when the orb is still idle with no capture
    /// open, and the orb then listens.
    pub fn on_capture_started(&mut self) -> (keep: bool)
        requires
            old(self).wf(),
        ensures
            final(self).wf(),
            keep == (old(self).state() == OrbState::Idle && !old(self).recording()),
            keep ==> final(self).state() == OrbState::Listening && final(self).recording(),
            !keep ==> final(self).state() == old(self).state() && final(self).recording() == old(self).recording(),
    {
        let state = *self.orb.state();
        if state == OrbState::Idle && !self.recording {
            self.recording = true;
            self.orb.transition(OrbState::Listening);
            true
        } else {
            false
        }
    }

    /// Mute / un-mute; an open capture is discarded.
    pub fn handle_mute_toggle(&mut self)
        requires
            old(self).wf(),
        ensures
            final(self).wf(),
            !final(self).recording(),
            final(self).state() == mute_toggled(old(self).state()),
    {
        // if recording when muted, the capture is discarded
        self.recording = false;
        self.orb.toggle_mute();
    }

    /// Dismiss the clipboard card (Injected → Idle).
    pub fn handle_dismiss(&mut self)
        requires
            old(self).wf(),
        ensures
            final(self).wf(),
            final(self).recording() == old(self).recording(),
            final(self).state() == (if old(self).state() == OrbState::Injected {
                OrbState::Idle
            } else {
                old(self).state()
            }),
    {
        let state = *self.orb.state();
        if state == OrbState::Injected {
            self.orb.transition(OrbState::Idle);
        }
    }

    /// The current state as the frontend spells it.
    pub fn get_state_str(&self) -> (s: String)
        ensures
            s@ == state_label(self.state()),
    {
        self.orb.state().to_string()
    }

    /// The captured audio was drained: `samples` long, with the recognizer
    /// loaded (`engine_ready`) or not.  Short audio and a missing model send
    /// the orb back to idle.
    pub fn on_audio(&mut self, samples: usize, engine_ready: bool) -> (o: AudioOutcome)
        requires
            old(self).wf(),
        ensures
            final(self).wf(),
            o == audio_outcome(samples as nat, engine_ready),
            final(self).recording() == old(self).recording(),
            final(self).state() == (if o == AudioOutcome::Transcribe {
                old(self).state()
            } else {
                moved(old(self).state(), OrbState::Idle)
            }),
    {
        // guard against spurious very short recordings (< 100 ms)
        if samples < MIN_SAMPLES {
            self.orb.transition(OrbState::Idle);
            return AudioOutcome::TooShort;
        }
        if !engine_ready {
            self.orb.transition(OrbState::Idle);
            return AudioOutcome::ModelMissing;
        }
        AudioOutcome::Transcribe
    }

    /// The recognizer returned `result`.  An empty transcript or an error
    /// sends the orb back to idle.
    pub fn on_transcript(&mut self, result: &Result<String, String>) -> (o: TranscriptOutcome)
        requires
            old(self).wf(),
        ensures
            final(self).wf(),
            o == transcript_outcome(*result),
            result matches Ok(text) ==> (o == TranscriptOutcome::Empty <==> text@.len() == 0),
            result matches Ok(text) ==> (o == TranscriptOutcome::Inject <==> text@.len() > 0),
            result is Err <==> o == TranscriptOutcome::Failed,
            final(self).recording() == old(self).recording(),
            final(self).state() == (if o == TranscriptOutcome::Inject {
                old(self).state()
            } else {
                moved(old(self).state(), OrbState::Idle)
            }),
    {
        match result {
            Ok(text) => {
                if text.as_str().is_empty() {
                    self.orb.transition(OrbState::Idle);
                    TranscriptOutcome::Empty
                } else {
                    TranscriptOutcome::Inject
                }
            },
            Err(_) => {
                self.orb.transition(OrbState::Idle);
                TranscriptOutcome::Failed
            },
        }
    }

    /// Injection returned `r`.  In every case the orb moves to `Injected`;
    /// the follow-up says whether the clipboard card is shown and whether the
    /// text must still be copied to the clipboard.
    pub fn on_injection(&mut self, r: &InjectionResult) -> (f: InjectionFollowUp)
        requires
            old(self).wf(),
        ensures
            final(self).wf(),
            f == injection_follow_up(*r),
            final(self).recording() == old(self).recording(),
            final(self).state() == moved(old(self).state(), OrbState::Injected),
    {
        self.orb.transition(OrbState::Injected);
        match r {
            InjectionResult::Injected => InjectionFollowUp::Done,
            InjectionResult::Clipboard => InjectionFollowUp::ShowClipboardCard,
            InjectionResult::Failed(_) => InjectionFollowUp::CopyAndShowClipboardCard,
        }
    }
}

/// A full dictation round from a fresh pipeline: toggle, capture opened,
/// toggle, enough audio, text recognized, text typed — ends `Injected` with
/// no capture open; dismissing then returns to `Idle`.
pub proof fn lemma_round_trip()
    ensures
        toggle_action(OrbState::Idle, false) == PipelineAction::StartCapture,
        toggle_action(OrbState::Listening, true) == PipelineAction::StopAndTranscribe,
        moved(OrbState::Idle, OrbState::Listening) == OrbState::Listening,
        moved(OrbState::Listening, OrbState::Transcribing) == OrbState::Transcribing,
        audio_outcome(MIN_SAMPLES as nat, true) == AudioOutcome::Transcribe,
        moved(OrbState::Transcribing, OrbState::Injected) == OrbState::Injected,
        moved(OrbState::Injected, OrbState::Idle) == OrbState::Idle,
{
}

/// Every non-empty transcript is injected, however short; only the empty
/// transcript is discarded, and only a recognizer error fails.
pub proof fn lemma_transcript_decision(r: Result<String, String>)
    ensures
        r matches Ok(text) ==> (text@.len() > 0 <==> transcript_outcome(r)
            == TranscriptOutcome::Inject),
        r matches Ok(text) ==> (text@.len() == 0 <==> transcript_outcome(r)
            == TranscriptOutcome::Empty),
        r is Err <==> transcript_outcome(r) == TranscriptOutcome::Failed,
{
}

/// While muted, user commands start nothing and leave the orb muted.
pub proof fn lemma_muted_ignores_commands(recording: bool)
    ensures
        toggle_action(OrbState::Muted, recording) == PipelineAction::Nothing,
        moved(OrbState::Muted, OrbState::Listening) == OrbState::Muted,
        moved(OrbState::Muted, OrbState::Transcribing) == OrbState::Muted,
        moved(OrbState::Muted, OrbState::Injected) == OrbState::Muted,
{
}

} // verus!
