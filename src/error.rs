//! The library's error taxonomy.
use vstd::prelude::*;
use vstd::string::*;

verus! {

/// Every failure that the transcription core reports to its caller.
#[derive(Debug, Clone)]
pub enum AppError {
    /// The media-processing binary failed (probe or transcode).
    FFmpeg(String),
    /// The transcription engine failed or its output could not be used.
    Whisper(String),
    /// A network or stream failure while fetching a model or the engine.
    Download(String),
    Io(String),
    Network(String),
    Json(String),
    /// The model id is not in the catalog, or not installed.
    ModelNotFound(String),
    InvalidPath(String),
    ProcessFailed(String),
    /// The input has no audio stream; nothing was spawned.
    NoAudioStream,
    /// No transcription-engine binary could be located.
    EngineNotFound,
    /// The engine cannot be installed on this platform.
    UnsupportedPlatform(String),
}

/// `prefix` followed by `body`.
pub fn prefixed(prefix: &str, body: &str) -> (r: String)
    ensures
        r@ == prefix@ + body@,
{
    let mut r = String::from_str(prefix);
    r.append(body);
    r
}

impl AppError {
    /// The error as a line of text, as the GUI shows it.
    pub fn message(&self) -> (r: String)
        ensures
            r@.len() > 0,
    {
        let r = match self {
            AppError::FFmpeg(m) => prefixed("FFmpeg error: ", m.as_str()),
            AppError::Whisper(m) => prefixed("Whisper error: ", m.as_str()),
            AppError::Download(m) => prefixed("Download error: ", m.as_str()),
            AppError::Io(m) => prefixed("IO error: ", m.as_str()),
            AppError::Network(m) => prefixed("Network error: ", m.as_str()),
            AppError::Json(m) => prefixed("JSON error: ", m.as_str()),
            AppError::ModelNotFound(m) => prefixed("Model not found: ", m.as_str()),
            AppError::InvalidPath(m) => prefixed("Invalid path: ", m.as_str()),
            AppError::ProcessFailed(m) => prefixed("Process failed: ", m.as_str()),
            AppError::NoAudioStream => String::from_str("This media file does not contain an audio stream"),
            AppError::EngineNotFound => String::from_str("Whisper error: whisper.cpp not found"),
            AppError::UnsupportedPlatform(m) => prefixed("Unsupported platform: ", m.as_str()),
        };
        proof {
            reveal_strlit("FFmpeg error: ");
            reveal_strlit("Whisper error: ");
            reveal_strlit("Download error: ");
            reveal_strlit("IO error: ");
            reveal_strlit("Network error: ");
            reveal_strlit("JSON error: ");
            reveal_strlit("Model not found: ");
            reveal_strlit("Invalid path: ");
            reveal_strlit("Process failed: ");
            reveal_strlit("This media file does not contain an audio stream");
            reveal_strlit("Whisper error: whisper.cpp not found");
            reveal_strlit("Unsupported platform: ");
        }
        r
    }
}

} // verus!
