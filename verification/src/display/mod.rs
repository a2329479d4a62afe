//! Framebuffer drawing and screens for the e-Paper and OLED panels.
pub mod bmp;
pub mod fb;
pub mod font;
pub mod draw;
pub mod oled;
pub mod qr;
pub mod ui;
