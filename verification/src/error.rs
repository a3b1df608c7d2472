//! The library's error type.

use vstd::prelude::*;

verus! {

/// Everything that can go wrong in the library. Payloads that came from
/// outside the library (I/O, the tensor backend, JSON) are carried as their
/// message text.
#[derive(Debug)]
pub enum MarkusError {
    GgufParse(String),
    ModelNotFound { path: String },
    UnsupportedArch { arch: String },
    Tokenizer(String),
    Inference(String),
    Config(String),
    Io(String),
    Candle(String),
    Json(String),
    Http(String),
    Download(String),
    ContextExceeded { used: usize, max: usize },
    OutOfMemory { need_mb: u64, avail_mb: u64 },
}

} // verus!
