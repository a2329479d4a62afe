//! 128×64 1-bit framebuffer for the 1.54″ OLED (SSD1309/SSD1306-class),
//! MSB-first packing like the e-Paper.
use vstd::prelude::*;

use crate::display::fb::{
    fb_bytes, fb_clear, fb_fill, fb_fill_rect, fb_get_pixel, fb_hline, fb_hline_exec, fb_pix,
    fb_set, fb_set_pixel, fb_vline, fb_vline_exec, geom_ok,
};
use crate::display::font::{fb_draw_str, fb_draw_str_wide, fb_str, fb_text_width_wide, text_fits, text_w};
use crate::text::tdiv;

verus! {

pub const WIDTH: u16 = 128;

pub const HEIGHT: u16 = 64;

pub const BYTES: usize = 1024;

pub const BLACK: u8 = 0;

pub const WHITE: u8 = 1;

pub open spec fn opx(buf: Seq<u8>, x: int, y: int) -> u8 {
    fb_pix(buf, 128, 64, x, y)
}

/// Text of `s` at `(x, y)` on the OLED (whose font also has `…`).
pub open spec fn ostr_at(buf: Seq<u8>, x: int, y: int, s: Seq<char>, scale: int, color: u8) -> Seq<u8> {
    fb_str(buf, 128, 64, x, y, s, scale, color, true)
}

/// Text of `s` centred on column `cx`.
pub open spec fn ostr_centered(buf: Seq<u8>, cx: int, y: int, s: Seq<char>, scale: int, color: u8) -> Seq<u8> {
    ostr_at(buf, cx - tdiv(text_w(s.len() as int, scale), 2), y, s, scale, color)
}

/// Set one pixel (MSB-first within each byte, row-major).
pub fn set_pixel(buf: &mut [u8], x: i32, y: i32, color: u8)
    requires
        old(buf)@.len() >= BYTES,
    ensures
        final(buf)@ == fb_set(old(buf)@, 128, 64, x as int, y as int, color),
        final(buf)@.len() == old(buf)@.len(),
{
    fb_set_pixel(buf, 128, 64, x, y, color);
}

pub fn get_pixel(buf: &[u8], x: i32, y: i32) -> (c: u8)
    requires
        buf@.len() >= BYTES,
    ensures
        c == opx(buf@, x as int, y as int),
{
    fb_get_pixel(buf, 128, 64, x, y)
}

/// Fill the framebuffer white (0xFF).
pub fn clear(buf: &mut [u8])
    ensures
        final(buf)@ == Seq::new(old(buf)@.len(), |i: int| 0xFFu8),
{
    fb_clear(buf);
}

pub fn fill_rect(buf: &mut [u8], x: i32, y: i32, w: i32, h: i32, color: u8)
    requires
        old(buf)@.len() >= BYTES,
        x + w <= i32::MAX,
        y + h <= i32::MAX,
    ensures
        final(buf)@ == fb_fill(old(buf)@, 128, 64, x as int, y as int, w as int, h as int, color),
        final(buf)@.len() == old(buf)@.len(),
{
    fb_fill_rect(buf, 128, 64, x, y, w, h, color);
}

pub fn hline(buf: &mut [u8], x: i32, y: i32, w: i32, color: u8)
    requires
        old(buf)@.len() >= BYTES,
        x + w <= i32::MAX,
    ensures
        final(buf)@ == fb_hline(old(buf)@, 128, 64, x as int, y as int, w as int, color),
        final(buf)@.len() == old(buf)@.len(),
{
    fb_hline_exec(buf, 128, 64, x, y, w, color);
}

pub fn vline(buf: &mut [u8], x: i32, y: i32, h: i32, color: u8)
    requires
        old(buf)@.len() >= BYTES,
        y + h <= i32::MAX,
    ensures
        final(buf)@ == fb_vline(old(buf)@, 128, 64, x as int, y as int, h as int, color),
        final(buf)@.len() == old(buf)@.len(),
{
    fb_vline_exec(buf, 128, 64, x, y, h, color);
}

pub fn text_width(s: &str, scale: i32) -> (w: i32)
    requires
        -10_000 <= scale <= 10_000,
        crate::display::draw::width_fits(s@.len() as int, scale as int),
    ensures
        w == text_w(s@.len() as int, scale as int),
{
    let tw = fb_text_width_wide(s, scale);
    tw as i32
}

pub fn draw_str(buf: &mut [u8], x: i32, y: i32, s: &str, scale: i32, color: u8)
    requires
        old(buf)@.len() >= BYTES,
        text_fits(x as int, y as int, scale as int),
    ensures
        final(buf)@ == ostr_at(old(buf)@, x as int, y as int, s@, scale as int, color),
        final(buf)@.len() == old(buf)@.len(),
{
    fb_draw_str(buf, 128, 64, x, y, s, scale, color, true);
}

pub fn draw_str_centered(buf: &mut [u8], cx: i32, y: i32, s: &str, scale: i32, color: u8)
    requires
        old(buf)@.len() >= BYTES,
        -100_000_000 <= cx <= 100_000_000,
        -100_000_000 <= y <= 100_000_000,
        -10_000 <= scale <= 10_000,
    ensures
        final(buf)@ == ostr_centered(old(buf)@, cx as int, y as int, s@, scale as int, color),
        final(buf)@.len() == old(buf)@.len(),
{
    let w = fb_text_width_wide(s, scale);
    fb_draw_str_wide(buf, 128, 64, cx as i128 - w / 2, y, s, scale, color, true);
}

/// Width of the battery bar's fill for `percent` (capped at 100): a share
/// of the 14 inner pixels, at least one when the charge is above zero.
pub open spec fn bar_fill_w(percent: u8) -> int {
    let pct = if percent > 100 { 100 } else { percent as int };
    let f = 14 * pct / 100;
    if f < 1 && pct > 0 {
        1
    } else {
        f
    }
}

/// The 16×6 battery outline with its nipple and fill in the top-right corner.
pub open spec fn battery_bar_spec(buf: Seq<u8>, percent: u8) -> Seq<u8> {
    let x = 108;
    let y = 2;
    let b1 = fb_hline(buf, 128, 64, x, y, 16, BLACK);
    let b2 = fb_hline(b1, 128, 64, x, y + 5, 16, BLACK);
    let b3 = fb_vline(b2, 128, 64, x, y, 6, BLACK);
    let b4 = fb_vline(b3, 128, 64, x + 15, y, 6, BLACK);
    let b5 = fb_fill(b4, 128, 64, x + 16, y + 1, 2, 4, BLACK);
    let fw = bar_fill_w(percent);
    if fw > 0 {
        fb_fill(b5, 128, 64, x + 1, y + 1, fw, 4, BLACK)
    } else {
        b5
    }
}

/// 16×6 battery bar in the top-right corner.
pub fn draw_battery_bar(buf: &mut [u8], percent: u8)
    requires
        old(buf)@.len() >= BYTES,
    ensures
        final(buf)@ == battery_bar_spec(old(buf)@, percent),
        final(buf)@.len() == old(buf)@.len(),
{
    let bw = 16i32;
    let bh = 6i32;
    let x = WIDTH as i32 - bw - 4;
    let y = 2i32;
    hline(buf, x, y, bw, BLACK);
    hline(buf, x, y + bh - 1, bw, BLACK);
    vline(buf, x, y, bh, BLACK);
    vline(buf, x + bw - 1, y, bh, BLACK);
    fill_rect(buf, x + bw, y + 1, 2, bh - 2, BLACK);
    let pct = if percent > 100 { 100 } else { percent as i32 };
    let inner_w = bw - 2;
    let f = inner_w * pct / 100;
    let lo = if pct > 0 { 1 } else { 0 };
    let fill_w = if f > lo { f } else { lo };
    if fill_w > 0 {
        fill_rect(buf, x + 1, y + 1, fill_w, bh - 2, BLACK);
    }
}

/// Footer: a rule above the bottom row of text and the two button labels.
pub open spec fn ohints_spec(buf: Seq<u8>, rec: Seq<char>, pwr: Seq<char>) -> Seq<u8> {
    let b = ostr_at(fb_hline(buf, 128, 64, 2, 53, 124, BLACK), 2, 56, rec, 1, BLACK);
    ostr_at(b, 128 - 2 - text_w(pwr.len() as int, 1), 56, pwr, 1, BLACK)
}

/// Footer hints near the bottom of the 64-px display.
pub fn draw_hints(buf: &mut [u8], rec_label: &str, pwr_label: &str)
    requires
        old(buf)@.len() >= BYTES,
    ensures
        final(buf)@ == ohints_spec(old(buf)@, rec_label@, pwr_label@),
        final(buf)@.len() == old(buf)@.len(),
{
    let y = 56i32;
    hline(buf, 2, y - 3, WIDTH as i32 - 4, BLACK);
    draw_str(buf, 2, y, rec_label, 1, BLACK);
    let rw = fb_text_width_wide(pwr_label, 1);
    fb_draw_str_wide(buf, 128, 64, WIDTH as i128 - 2 - rw, y, pwr_label, 1, BLACK, true);
}

} // verus!
