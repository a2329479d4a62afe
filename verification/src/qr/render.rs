//! Grayscale test frames of a QR symbol, as a camera would see a printed code.
use vstd::prelude::*;
use vstd::utf8::encode_utf8;

use crate::display::qr::{qr_encode, qr_symbol};

verus! {

/// Gray level of pixel `(px, py)` in a frame of a `width`-module symbol with
/// modules `mods`, `module_px` pixels per module and a `quiet`-module margin:
/// black (`0`) on a dark module, white (`255`) elsewhere.
pub open spec fn qr_grey(width: int, mods: Seq<bool>, module_px: int, quiet: int, px: int, py: int) -> u8 {
    let mx = px / module_px - quiet;
    let my = py / module_px - quiet;
    if 0 <= mx < width && 0 <= my < width && mods[my * width + mx] {
        0
    } else {
        255
    }
}

/// The frame for symbol `(width, mods)` is `side × side` pixels, row-major.
pub open spec fn is_qr_frame(width: int, mods: Seq<bool>, module_px: int, quiet: int, side: int, pixels: Seq<u8>) -> bool {
    &&& side == (width + 2 * quiet) * module_px
    &&& pixels.len() == side * side
    &&& forall|i: int| 0 <= i < pixels.len() ==> #[trigger] pixels[i] == qr_grey(width, mods, module_px, quiet, i % side, i / side)
}

/// The frame fits in memory: its side and pixel count stay inside `usize`.
pub open spec fn frame_fits(module_px: usize, quiet: usize) -> bool {
    &&& 177 + 2 * quiet <= 0xFFFF_FFFF
    &&& (177 + 2 * quiet) * module_px <= 0xFFFF_FFFF
    &&& (177 + 2 * quiet) * module_px * ((177 + 2 * quiet) * module_px) <= usize::MAX
}

/// Render `payload` as a QR code into a square grayscale frame (`0` = black,
/// `255` = white), `module_px` pixels per module with a `quiet`-module margin;
/// returns the side and the pixels.
pub fn render_qr_grayscale(payload: &str, module_px: usize, quiet: usize) -> (r: (usize, Vec<u8>))
    requires
        qr_symbol(encode_utf8(payload@)) is Some,
        frame_fits(module_px, quiet),
    ensures
        ({
            let (w, mods) = qr_symbol(encode_utf8(payload@))->0;
            is_qr_frame(w as int, mods, module_px as int, quiet as int, r.0 as int, r.1@)
        }),
{
    let bytes = payload.as_bytes();
    match qr_encode(bytes) {
        Some((w, mods)) => frame_of(w, &mods, module_px, quiet),
        None => (0, Vec::new()),
    }
}

/// `render_qr_grayscale`, or `None` when the payload does not fit a QR code.
pub fn try_render_qr_grayscale(payload: &str, module_px: usize, quiet: usize) -> (r: Option<(usize, Vec<u8>)>)
    requires
        frame_fits(module_px, quiet),
    ensures
        match qr_symbol(encode_utf8(payload@)) {
            None => r is None,
            Some((w, mods)) => r matches Some((side, px)) && is_qr_frame(w as int, mods, module_px as int, quiet as int, side as int, px@),
        },
{
    let bytes = payload.as_bytes();
    match qr_encode(bytes) {
        Some(_) => Some(render_qr_grayscale(payload, module_px, quiet)),
        None => None,
    }
}

fn frame_of(w: usize, mods: &Vec<bool>, module_px: usize, quiet: usize) -> (r: (usize, Vec<u8>))
    requires
        21 <= w <= 177,
        mods@.len() == w * w,
        frame_fits(module_px, quiet),
    ensures
        is_qr_frame(w as int, mods@, module_px as int, quiet as int, r.0 as int, r.1@),
{
    assert((w + 2 * quiet) * module_px <= (177 + 2 * quiet) * module_px) by (nonlinear_arith)
        requires
            w <= 177,
    ;
    let total = w + quiet * 2;
    let side = total * module_px;
    assert(side * side <= (177 + 2 * quiet) * module_px * ((177 + 2 * quiet) * module_px)) by (nonlinear_arith)
        requires
            0 <= side <= (177 + 2 * quiet) * module_px,
    ;
    let n = side * side;
    let mut pixels: Vec<u8> = Vec::new();
    let mut i: usize = 0;
    while i < n
        invariant
            n == side * side,
            side == (w + 2 * quiet) * module_px,
            21 <= w <= 177,
            mods@.len() == w * w,
            i <= n,
            pixels@.len() == i,
            forall|k: int| 0 <= k < i ==> #[trigger] pixels@[k] == qr_grey(w as int, mods@, module_px as int, quiet as int, k % side as int, k / side as int),
        decreases n - i,
    {
        assert(side > 0) by (nonlinear_arith)
            requires
                i < n,
                n == side * side,
        ;
        let px = i % side;
        let py = i / side;
        assert(module_px > 0) by (nonlinear_arith)
            requires
                side > 0,
                side == (w + 2 * quiet) * module_px,
        ;
        let mx = px / module_px;
        let my = py / module_px;
        let mut g: u8 = 255;
        if mx >= quiet && my >= quiet && mx - quiet < w && my - quiet < w {
            let cx = mx - quiet;
            let cy = my - quiet;
            assert(cy * w + cx < w * w && w * w <= 177 * 177) by (nonlinear_arith)
                requires
                    cx < w,
                    cy < w,
                    w <= 177,
            ;
            if mods[cy * w + cx] {
                g = 0;
            }
        }
        pixels.push(g);
        i += 1;
    }
    (side, pixels)
}

} // verus!
