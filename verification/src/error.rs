use vstd::prelude::*;

use crate::state::{AppState, Transition};
use crate::state_qr::{QrAppState, QrTransition};

verus! {

/// Errors raised by the core library.
#[derive(Debug, Clone, PartialEq, Eq)]
pub enum CoreError {
    Storage(String),
    InvalidIndexLine(String),
    InvalidTag(String),
    TagNotFound(String),
    TagLimitReached(usize),
    NoteNotFound(i32),
    InvalidWav(String),
    InvalidTransition { from: AppState, event: Transition },
    InvalidQrTransition { from: QrAppState, event: QrTransition },
    InvalidMeta(String),
    Other(String),
}

/// Result type used across the core library.
pub type CoreResult<T> = Result<T, CoreError>;

} // verus!
