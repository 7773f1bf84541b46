use vstd::prelude::*;

verus! {

/// Everything that can go wrong in the translation pipeline.
#[derive(Debug)]
pub enum Error {
    /// The translation backend call failed: transport failure, non-success
    /// status, or a malformed response body. The payload carries the
    /// underlying cause as text.
    TranslateError(String),
    /// The input bytes could not be parsed as the declared subtitle format,
    /// or the format is recognized but not implemented.
    SubtitleDecodeError(String),
    /// A backend response carried a different number of texts than the
    /// request that produced it; merging it would misalign every later
    /// entry, so it is surfaced instead of being tolerated.
    ResponseLengthMismatch { expected: usize, actual: usize },
}

} // verus!
