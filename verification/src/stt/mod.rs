//! Speech-to-text settings and the transcription entry point.
use vstd::prelude::*;

pub mod postprocess;

verus! {

/// Configuration for the speech-to-text engine.
#[derive(Debug)]
pub struct SttConfig {
    /// Path to the GGML model file, e.g. `"models/ggml-base.bin"`.
    pub model_path: String,
    /// BCP-47 language code (`"en"`, `"fr"`, ...) or `"auto"`.
    pub language: String,
    /// Strip recognizer artifacts and capitalize the first letter.
    pub postprocess: bool,
}

impl Default for SttConfig {
    fn default() -> (c: Self)
        ensures
            c.model_path@ == "models/ggml-base.bin"@,
            c.language@ == "en"@,
            c.postprocess,
    {
        SttConfig {
            model_path: String::from_str("models/ggml-base.bin"),
            language: String::from_str("en"),
            postprocess: true,
        }
    }
}

/// The message of the transcription stub.
pub open spec fn stt_unavailable() -> Seq<char> {
    "STT not yet implemented — add whisper-rs and implement transcribe()"@
}

/// Transcribe a raw audio buffer.  No recognizer is bound yet: every call
/// fails with the same message.
pub fn transcribe<T>(audio: &[T], config: &SttConfig) -> (r: Result<String, String>)
    ensures
        r matches Err(e) && e@ == stt_unavailable(),
{
    Err(String::from_str("STT not yet implemented — add whisper-rs and implement transcribe()"))
}

} // verus!
