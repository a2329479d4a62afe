//! QR code rendering onto the 200×200 1-bit e-Paper framebuffer.
//!
//! QR is inherently 1-bit: encode once, paint the dark modules as filled
//! squares inside a white quiet zone, then flush the panel.
use qrcode::{Color, QrCode};
use vstd::prelude::*;
use vstd::utf8::encode_utf8;

use crate::display::draw::{fill_rect, BLACK, BYTES, WHITE};
use crate::display::fb::fb_fill;
use crate::error::{CoreError, CoreResult};
use crate::text::owned;

verus! {

/// Max square size reserved for QR on the Zoop panel (leaves room for labels).
pub const QR_MAX_PX: i32 = 140;

/// Quiet zone in modules on each side (e-Ink scanners tolerate 2–4).
pub const QUIET: usize = 2;

/// The symbol `QrCode::new` builds for `data`: its width in modules and the
/// modules row by row (`true` = dark), or `None` when it cannot be built.
pub uninterp spec fn qr_symbol(data: Seq<u8>) -> Option<(usize, Seq<bool>)>;

pub open spec fn symbol_view(r: Option<(usize, Vec<bool>)>) -> Option<(usize, Seq<bool>)> {
    match r {
        Some((w, m)) => Some((w, m@)),
        None => None,
    }
}

/// `QrCode::new` (medium error correction, smallest version that fits),
/// read out as its width and row-major dark flags. The crate builds normal
/// QR versions 1 to 40 only, so the width is between 21 and 177 and there
/// are width × width modules.
#[verifier::external_body]
pub(crate) fn qr_encode(data: &[u8]) -> (r: Option<(usize, Vec<bool>)>)
    ensures
        symbol_view(r) == qr_symbol(data@),
        r matches Some((w, m)) ==> 21 <= w <= 177 && m@.len() == w * w,
{
    match QrCode::new(data) {
        Ok(code) => Some((
            code.width(),
            code.to_colors().into_iter().map(|c| match c {
                Color::Dark => true,
                Color::Light => false,
            }).collect(),
        )),
        Err(_) => None,
    }
}

/// Largest square used by the home screen's full-panel QR.
pub const QR_FULL_PX: i32 = 192;

/// Pixels per module for a symbol `width` modules wide (quiet zone
/// included) within a `max_px` square.
pub open spec fn module_px(width: int, max_px: int) -> int {
    let s = max_px / (width + 2 * QUIET as int);
    if s < 1 {
        1
    } else {
        s
    }
}

/// Side of the painted square, quiet zone included.
pub open spec fn qr_side(width: int, max_px: int) -> int {
    module_px(width, max_px) * (width + 2 * QUIET as int)
}

/// Top-left corner of the square: centred across, at `top_y` clamped onto the panel.
pub open spec fn qr_origin(width: int, max_px: int, top_y: int) -> (int, int) {
    let side = qr_side(width, max_px);
    let oy = if top_y < 0 { 0 } else { top_y };
    ((200 - side) / 2, if oy > 200 - side { 200 - side } else { oy })
}

/// Dark modules `0 .. n` of row `y`, each a `scale × scale` square.
pub open spec fn qr_row(buf: Seq<u8>, m: Seq<bool>, w: int, y: int, n: int, ox: int, oy: int, scale: int) -> Seq<u8>
    decreases n,
{
    if n <= 0 {
        buf
    } else {
        let x = n - 1;
        let b = qr_row(buf, m, w, y, n - 1, ox, oy, scale);
        if m[y * w + x] {
            fb_fill(b, 200, 200, ox + (x + QUIET as int) * scale, oy + (y + QUIET as int) * scale, scale, scale, BLACK)
        } else {
            b
        }
    }
}

/// Rows `0 .. n` of dark modules.
pub open spec fn qr_rows(buf: Seq<u8>, m: Seq<bool>, w: int, n: int, ox: int, oy: int, scale: int) -> Seq<u8>
    decreases n,
{
    if n <= 0 {
        buf
    } else {
        qr_row(qr_rows(buf, m, w, n - 1, ox, oy, scale), m, w, n - 1, w, ox, oy, scale)
    }
}

/// The panel after painting a symbol: white square, then its dark modules.
pub open spec fn qr_paint(buf: Seq<u8>, m: Seq<bool>, w: int, max_px: int, top_y: int) -> Seq<u8> {
    let (ox, oy) = qr_origin(w, max_px, top_y);
    let scale = module_px(w, max_px);
    let side = qr_side(w, max_px);
    qr_rows(fb_fill(buf, 200, 200, ox, oy, side, side, WHITE), m, w, w, ox, oy, scale)
}

proof fn lemma_cell(w: int, x: int, y: int)
    requires
        0 <= x < w <= 177,
        0 <= y < w,
    ensures
        0 <= y * w + x < w * w <= 177 * 177,
{
    assert(0 <= y * w + x < w * w <= 177 * 177) by (nonlinear_arith)
        requires
            0 <= x < w <= 177,
            0 <= y < w,
    ;
}

proof fn lemma_len_row(buf: Seq<u8>, m: Seq<bool>, w: int, y: int, n: int, ox: int, oy: int, scale: int)
    requires
        buf.len() >= BYTES,
    ensures
        qr_row(buf, m, w, y, n, ox, oy, scale).len() == buf.len(),
    decreases n,
{
    if n > 0 {
        lemma_len_row(buf, m, w, y, n - 1, ox, oy, scale);
        let b = qr_row(buf, m, w, y, n - 1, ox, oy, scale);
        crate::display::fb::lemma_fill_pix(b, 200, 200, ox + (n - 1 + 2) * scale, oy + (y + 2) * scale, scale, scale, BLACK, 0, 0);
    }
}

/// Paint a symbol given as `width` and row-major dark flags, as large as
/// fits a `max_px` square; returns `width`.
fn paint_modules(buf: &mut [u8], modules: &[bool], width: usize, max_px: i32, top_y: i32) -> (r: CoreResult<usize>)
    requires
        old(buf)@.len() >= BYTES,
        width <= 177,
        modules@.len() == width * width,
        max_px == QR_MAX_PX || max_px == QR_FULL_PX,
    ensures
        r == Ok::<usize, CoreError>(width),
        final(buf)@ == qr_paint(old(buf)@, modules@, width as int, max_px as int, top_y as int),
        final(buf)@.len() == old(buf)@.len(),
{
    let total = width + QUIET * 2;
    let s = max_px / (total as i32);
    let scale = if s < 1 { 1 } else { s };
    assert(4 <= scale * (total as i32) <= 181 * 192) by (nonlinear_arith)
        requires
            1 <= scale <= 192,
            4 <= total <= 181,
    ;
    assert(scale == module_px(width as int, max_px as int));
    assert(scale * (total as i32) <= 192) by (nonlinear_arith)
        requires
            s == max_px / (total as i32),
            max_px <= 192,
            scale == (if s < 1 { 1 } else { s }),
            4 <= total <= 181,
    ;
    let qr_px = scale * total as i32;
    let origin_x = (200 - qr_px) / 2;
    let oy = if top_y < 0 { 0 } else { top_y };
    let origin_y = if oy > 200 - qr_px { 200 - qr_px } else { oy };
    assert(qr_px == qr_side(width as int, max_px as int));
    assert(qr_origin(width as int, max_px as int, top_y as int) == (origin_x as int, origin_y as int));
    fill_rect(buf, origin_x, origin_y, qr_px, qr_px, WHITE);
    let ghost start = buf@;
    let mut y: usize = 0;
    while y < width
        invariant
            old(buf)@.len() >= BYTES,
            start.len() == old(buf)@.len(),
            buf@.len() == old(buf)@.len(),
            width <= 177,
            modules@.len() == width * width,
            1 <= scale <= 192,
            scale == module_px(width as int, max_px as int),
            -30_000 <= origin_x <= 200,
            -30_000 <= origin_y <= 200,
            y <= width,
            buf@ == qr_rows(start, modules@, width as int, y as int, origin_x as int, origin_y as int, scale as int),
        decreases width - y,
    {
        let ghost row_start = buf@;
        let mut x: usize = 0;
        while x < width
            invariant
                old(buf)@.len() >= BYTES,
                buf@.len() == old(buf)@.len(),
                row_start.len() == old(buf)@.len(),
                width <= 177,
                modules@.len() == width * width,
                1 <= scale <= 192,
                -30_000 <= origin_x <= 200,
                -30_000 <= origin_y <= 200,
                y < width,
                x <= width,
                buf@ == qr_row(row_start, modules@, width as int, y as int, x as int, origin_x as int, origin_y as int, scale as int),
            decreases width - x,
        {
            proof {
                lemma_cell(width as int, x as int, y as int);
            }
            assert((x + QUIET) as i32 * scale <= 179 * 192 && (y + QUIET) as i32 * scale <= 179 * 192) by (nonlinear_arith)
                requires
                    x < 177,
                    y < 177,
                    1 <= scale <= 192,
            ;
            if modules[y * width + x] {
                let px = origin_x + (x + QUIET) as i32 * scale;
                let py = origin_y + (y + QUIET) as i32 * scale;
                fill_rect(buf, px, py, scale, scale, BLACK);
            }
            proof {
                lemma_len_row(row_start, modules@, width as int, y as int, x + 1, origin_x as int, origin_y as int, scale as int);
            }
            x += 1;
        }
        y += 1;
    }
    Ok(width)
}

/// Paint a symbol given as `width` and row-major dark flags in the 140-pixel
/// square from row `top_y`; returns `width`.
pub fn draw_qr_modules(buf: &mut [u8], modules: &[bool], width: usize, top_y: i32) -> (r: CoreResult<usize>)
    requires
        old(buf)@.len() >= BYTES,
        width <= 177,
        modules@.len() == width * width,
    ensures
        r == Ok::<usize, CoreError>(width),
        final(buf)@ == qr_paint(old(buf)@, modules@, width as int, QR_MAX_PX as int, top_y as int),
        final(buf)@.len() == old(buf)@.len(),
{
    paint_modules(buf, modules, width, QR_MAX_PX, top_y)
}

/// Row that centres a full-panel symbol vertically.
pub open spec fn full_top(width: int) -> int {
    (200 - qr_side(width, QR_FULL_PX as int)) / 2
}

/// Paint a symbol as large as the panel allows (a 192-pixel square), centred.
pub fn draw_qr_modules_fullscreen(buf: &mut [u8], modules: &[bool], width: usize) -> (r: CoreResult<usize>)
    requires
        old(buf)@.len() >= BYTES,
        width <= 177,
        modules@.len() == width * width,
    ensures
        r == Ok::<usize, CoreError>(width),
        final(buf)@ == qr_paint(old(buf)@, modules@, width as int, QR_FULL_PX as int, full_top(width as int)),
        final(buf)@.len() == old(buf)@.len(),
{
    let total = (width + QUIET * 2) as i32;
    let s = QR_FULL_PX / total;
    let scale = if s < 1 { 1 } else { s };
    assert(4 <= scale * total <= 192) by (nonlinear_arith)
        requires
            s == 192i32 / total,
            scale == (if s < 1 { 1 } else { s }),
            4 <= total <= 181,
    ;
    assert(scale * total == qr_side(width as int, QR_FULL_PX as int));
    let top = (200 - scale * total) / 2;
    paint_modules(buf, modules, width, QR_FULL_PX, top)
}

/// Encode `payload` and draw it as large as the panel allows, centred.
pub fn draw_qr_fullscreen(buf: &mut [u8], payload: &str) -> (r: CoreResult<usize>)
    requires
        old(buf)@.len() >= BYTES,
    ensures
        match qr_symbol(encode_utf8(payload@)) {
            Some((w, m)) => r == Ok::<usize, CoreError>(w) && final(buf)@ == qr_paint(old(buf)@, m, w as int, QR_FULL_PX as int, full_top(w as int)),
            None => final(buf)@ == old(buf)@ && (r matches Err(CoreError::Other(msg)) && msg@
                == "QR encode failed (payload too long?)"@),
        },
        final(buf)@.len() == old(buf)@.len(),
{
    match qr_encode(payload.as_bytes()) {
        Some((width, modules)) => draw_qr_modules_fullscreen(buf, modules.as_slice(), width),
        None => Err(CoreError::Other(owned("QR encode failed (payload too long?)"))),
    }
}

/// Encode `payload` and draw a centred QR into `buf` from row `top_y`.
///
/// Returns the width in modules; a payload too long for any QR version is
/// refused and nothing is drawn.
pub fn draw_qr_centered(buf: &mut [u8], payload: &str, top_y: i32) -> (r: CoreResult<usize>)
    requires
        old(buf)@.len() >= BYTES,
    ensures
        match qr_symbol(encode_utf8(payload@)) {
            Some((w, m)) => r == Ok::<usize, CoreError>(w) && final(buf)@ == qr_paint(old(buf)@, m, w as int, QR_MAX_PX as int, top_y as int),
            None => final(buf)@ == old(buf)@ && (r matches Err(CoreError::Other(msg)) && msg@
                == "QR encode failed (payload too long?)"@),
        },
        final(buf)@.len() == old(buf)@.len(),
{
    match qr_encode(payload.as_bytes()) {
        Some((width, modules)) => draw_qr_modules(buf, modules.as_slice(), width, top_y),
        None => Err(CoreError::Other(owned("QR encode failed (payload too long?)"))),
    }
}

/// A symbol `width` modules wide gets at least 2 pixels per module.
pub fn width_fits_panel(width: usize) -> (r: bool)
    requires
        width <= 177,
    ensures
        r == ((QR_MAX_PX as int) / (width + 2 * QUIET) as int >= 2),
{
    let m = (width + 4) as i32;
    let scale = QR_MAX_PX / m;
    scale >= 2
}

/// Estimate whether a payload will fit reasonably on 200×200.
pub fn qr_fits_panel(payload: &str) -> (r: bool)
    ensures
        r == match qr_symbol(encode_utf8(payload@)) {
            Some((w, m)) => (QR_MAX_PX as int) / (w + 2 * QUIET) as int >= 2,
            None => false,
        },
{
    match qr_encode(payload.as_bytes()) {
        Some((width, modules)) => width_fits_panel(width),
        None => false,
    }
}

} // verus!
