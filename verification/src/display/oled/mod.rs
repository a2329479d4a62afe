//! 128×64 OLED panel of the QR scanner: drawing and screens.
pub mod draw;
pub mod ui;
