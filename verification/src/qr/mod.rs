//! QR scan → string (decode + debounce).
//! Encode/draw for e-Paper collect lives in [`crate::display::qr`].
pub mod debounce;
pub mod decode;
pub mod render;

pub use debounce::{DebounceOutcome, QrDebouncer};
pub use decode::{decode_grayscale, DecodeError, DecodeResult, MAX_PAYLOAD_BYTES};
pub use render::{render_qr_grayscale, try_render_qr_grayscale};
