//! The verified core of a host binding to a native speech-to-text engine.
//!
//! The crate holds everything the binding decides: how the construction
//! parameters are built, what each setter changes, which audio is accepted and
//! how it is normalised, how many workers a run gets, and how the engine's
//! segments become one transcript. It holds no pointer and makes no native
//! call; the caller performs those and reports back what happened.
//!
//! Numbers with a fraction are held as IEEE 754 bit patterns throughout, so
//! that every conversion is integer arithmetic with a proved result.

pub mod audio;
pub mod cstring;
pub mod error;
pub mod narrow;
pub mod params;
pub mod single;
pub mod transcript;
pub mod whisper;

pub use error::{Status, WhisperError};
pub use params::{ContextParams, FullParams, WhisperSamplingStrategy};
pub use whisper::{InferEvent, InferStep, Whisper};
