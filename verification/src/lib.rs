pub mod error;
pub mod srt;
pub mod strings;
pub mod subtitle;
pub mod translator;
