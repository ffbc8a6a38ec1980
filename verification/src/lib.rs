//! VOCA core: the verified logic of the dictation orb.
//!
//! The modules hold the orb state machine, the recording pipeline's
//! decisions, transcript post-processing, the sample ring buffer, the
//! energy-based voice activity detector, the model catalogue, and the
//! text that the auto-launch and text-injection paths hand to the OS.

pub mod audio;
pub mod autolaunch;
pub mod downloader;
pub mod history;
pub mod inject;
pub mod orb;
pub mod pipeline;
pub mod stt;
pub mod text;
