//! 1-bit framebuffer core shared by the e-Paper and OLED panels: rows of
//! `width / 8` bytes, MSB-first within each byte, bit set = white.
use vstd::prelude::*;

use crate::text::ascii_upper;

verus! {

pub const BLACK: u8 = 0;

pub const WHITE: u8 = 1;

/// Glyph cell width in pixels (plus one pixel of spacing).
pub const FONT_W: i32 = 5;

/// A panel's size in pixels; `width` is a multiple of 8.
pub open spec fn geom_ok(w: int, h: int) -> bool {
    0 < w <= 248 && 0 < h <= 1024 && w % 8 == 0
}

pub open spec fn fb_bytes(w: int, h: int) -> int {
    (w / 8) * h
}

pub open spec fn fb_in(w: int, h: int, x: int, y: int) -> bool {
    0 <= x < w && 0 <= y < h
}

/// Byte holding pixel `(x, y)`.
pub open spec fn fb_idx(w: int, x: int, y: int) -> int {
    y * (w / 8) + x / 8
}

/// Bit of pixel column `x` within its byte.
pub open spec fn fb_mask(x: int) -> u8 {
    1u8 << ((7 - x % 8) as u8)
}

/// Colour of pixel `(x, y)`; outside the panel reads as white.
pub open spec fn fb_pix(buf: Seq<u8>, w: int, h: int, x: int, y: int) -> u8 {
    if fb_in(w, h, x, y) {
        if buf[fb_idx(w, x, y)] & fb_mask(x) != 0 {
            WHITE
        } else {
            BLACK
        }
    } else {
        WHITE
    }
}

/// The colour a pixel gets when painted with `color`: white only for `WHITE`.
pub open spec fn paint(color: u8) -> u8 {
    if color == WHITE {
        WHITE
    } else {
        BLACK
    }
}

/// The buffer after painting pixel `(x, y)` (off-panel pixels are ignored).
pub open spec fn fb_set(buf: Seq<u8>, w: int, h: int, x: int, y: int, color: u8) -> Seq<u8> {
    if fb_in(w, h, x, y) {
        let i = fb_idx(w, x, y);
        buf.update(i, if color == WHITE { buf[i] | fb_mask(x) } else { buf[i] & !fb_mask(x) })
    } else {
        buf
    }
}

/// Pixels `x .. x + len` of row `y`, left to right.
pub open spec fn fb_hline(buf: Seq<u8>, w: int, h: int, x: int, y: int, len: int, color: u8) -> Seq<u8>
    decreases len,
{
    if len <= 0 {
        buf
    } else {
        fb_set(fb_hline(buf, w, h, x, y, len - 1, color), w, h, x + len - 1, y, color)
    }
}

/// Pixels `y .. y + len` of column `x`, top to bottom.
pub open spec fn fb_vline(buf: Seq<u8>, w: int, h: int, x: int, y: int, len: int, color: u8) -> Seq<u8>
    decreases len,
{
    if len <= 0 {
        buf
    } else {
        fb_set(fb_vline(buf, w, h, x, y, len - 1, color), w, h, x, y + len - 1, color)
    }
}

/// The rectangle `rw × rh` at `(x, y)`, row by row.
pub open spec fn fb_fill(buf: Seq<u8>, w: int, h: int, x: int, y: int, rw: int, rh: int, color: u8) -> Seq<u8>
    decreases rh,
{
    if rh <= 0 {
        buf
    } else {
        fb_hline(fb_fill(buf, w, h, x, y, rw, rh - 1, color), w, h, x, y + rh - 1, rw, color)
    }
}

pub proof fn lemma_bits(b: u8, k: u8, j: u8)
    requires
        k < 8,
        j < 8,
    ensures
        ((b | (1u8 << k)) & (1u8 << j) != 0) == (j == k || b & (1u8 << j) != 0),
        ((b & !(1u8 << k)) & (1u8 << j) != 0) == (j != k && b & (1u8 << j) != 0),
{
    assert(((b | (1u8 << k)) & (1u8 << j) != 0) == (j == k || b & (1u8 << j) != 0)) by (bit_vector)
        requires
            k < 8,
            j < 8,
    ;
    assert(((b & !(1u8 << k)) & (1u8 << j) != 0) == (j != k && b & (1u8 << j) != 0)) by (bit_vector)
        requires
            k < 8,
            j < 8,
    ;
}

proof fn lemma_idx(w: int, h: int, x1: int, y1: int, x2: int, y2: int)
    requires
        geom_ok(w, h),
        fb_in(w, h, x1, y1),
        fb_in(w, h, x2, y2),
    ensures
        0 <= fb_idx(w, x1, y1) < fb_bytes(w, h),
        fb_idx(w, x1, y1) == fb_idx(w, x2, y2) <==> (y1 == y2 && x1 / 8 == x2 / 8),
{
    let s = w / 8;
    assert(0 <= x1 / 8 < s);
    assert(0 <= x2 / 8 < s);
    assert(0 <= y1 * s + x1 / 8 < s * h) by (nonlinear_arith)
        requires
            0 <= x1 / 8 < s,
            0 <= y1 < h,
    ;
    if y1 != y2 {
        assert(y1 * s + x1 / 8 != y2 * s + x2 / 8) by (nonlinear_arith)
            requires
                0 <= x1 / 8 < s,
                0 <= x2 / 8 < s,
                y1 != y2,
        ;
    }
}

/// Painting one pixel changes that pixel only.
pub proof fn lemma_set_pix(buf: Seq<u8>, w: int, h: int, x: int, y: int, color: u8, px: int, py: int)
    requires
        geom_ok(w, h),
        buf.len() >= fb_bytes(w, h),
    ensures
        fb_set(buf, w, h, x, y, color).len() == buf.len(),
        fb_pix(fb_set(buf, w, h, x, y, color), w, h, px, py) == if fb_in(w, h, x, y) && px == x && py
            == y {
            paint(color)
        } else {
            fb_pix(buf, w, h, px, py)
        },
{
    if fb_in(w, h, x, y) {
        lemma_idx(w, h, x, y, x, y);
    }
    if fb_in(w, h, x, y) && fb_in(w, h, px, py) {
        lemma_idx(w, h, x, y, px, py);
        lemma_idx(w, h, px, py, x, y);
        let i = fb_idx(w, x, y);
        if fb_idx(w, px, py) == i {
            lemma_bits(buf[i], (7 - x % 8) as u8, (7 - px % 8) as u8);
        }
    }
}

/// A row segment paints exactly its pixels.
pub proof fn lemma_hline_pix(buf: Seq<u8>, w: int, h: int, x: int, y: int, len: int, color: u8, px: int, py: int)
    requires
        geom_ok(w, h),
        buf.len() >= fb_bytes(w, h),
    ensures
        fb_hline(buf, w, h, x, y, len, color).len() == buf.len(),
        fb_pix(fb_hline(buf, w, h, x, y, len, color), w, h, px, py) == if fb_in(w, h, px, py) && py
            == y && x <= px < x + len {
            paint(color)
        } else {
            fb_pix(buf, w, h, px, py)
        },
    decreases len,
{
    if len > 0 {
        lemma_hline_pix(buf, w, h, x, y, len - 1, color, px, py);
        lemma_set_pix(fb_hline(buf, w, h, x, y, len - 1, color), w, h, x + len - 1, y, color, px, py);
    }
}

/// A column segment paints exactly its pixels.
pub proof fn lemma_vline_pix(buf: Seq<u8>, w: int, h: int, x: int, y: int, len: int, color: u8, px: int, py: int)
    requires
        geom_ok(w, h),
        buf.len() >= fb_bytes(w, h),
    ensures
        fb_vline(buf, w, h, x, y, len, color).len() == buf.len(),
        fb_pix(fb_vline(buf, w, h, x, y, len, color), w, h, px, py) == if fb_in(w, h, px, py) && px
            == x && y <= py < y + len {
            paint(color)
        } else {
            fb_pix(buf, w, h, px, py)
        },
    decreases len,
{
    if len > 0 {
        lemma_vline_pix(buf, w, h, x, y, len - 1, color, px, py);
        lemma_set_pix(fb_vline(buf, w, h, x, y, len - 1, color), w, h, x, y + len - 1, color, px, py);
    }
}

/// A filled rectangle paints exactly the panel pixels inside it.
pub proof fn lemma_fill_pix(
    buf: Seq<u8>,
    w: int,
    h: int,
    x: int,
    y: int,
    rw: int,
    rh: int,
    color: u8,
    px: int,
    py: int,
)
    requires
        geom_ok(w, h),
        buf.len() >= fb_bytes(w, h),
    ensures
        fb_fill(buf, w, h, x, y, rw, rh, color).len() == buf.len(),
        fb_pix(fb_fill(buf, w, h, x, y, rw, rh, color), w, h, px, py) == if fb_in(w, h, px, py) && x
            <= px < x + rw && y <= py < y + rh {
            paint(color)
        } else {
            fb_pix(buf, w, h, px, py)
        },
    decreases rh,
{
    if rh > 0 {
        lemma_fill_pix(buf, w, h, x, y, rw, rh - 1, color, px, py);
        lemma_hline_pix(fb_fill(buf, w, h, x, y, rw, rh - 1, color), w, h, x, y + rh - 1, rw, color, px, py);
    }
}

proof fn lemma_len_fill(buf: Seq<u8>, w: int, h: int, x: int, y: int, rw: int, rh: int, color: u8)
    requires
        geom_ok(w, h),
        buf.len() >= fb_bytes(w, h),
    ensures
        fb_fill(buf, w, h, x, y, rw, rh, color).len() == buf.len(),
{
    lemma_fill_pix(buf, w, h, x, y, rw, rh, color, 0, 0);
}

/// Paint pixel `(x, y)`; off-panel coordinates are ignored.
pub fn fb_set_pixel(buf: &mut [u8], w: i32, h: i32, x: i32, y: i32, color: u8)
    requires
        geom_ok(w as int, h as int),
        old(buf)@.len() >= fb_bytes(w as int, h as int),
    ensures
        final(buf)@ == fb_set(old(buf)@, w as int, h as int, x as int, y as int, color),
        final(buf)@.len() == old(buf)@.len(),
{
    if x < 0 || y < 0 || x >= w || y >= h {
        return;
    }
    proof {
        lemma_idx(w as int, h as int, x as int, y as int, x as int, y as int);
    }
    let stride = (w as usize) / 8;
    assert((y as usize) * stride <= 1024 * 128) by (nonlinear_arith)
        requires
            0 <= y < 1024,
            stride <= 128,
    ;
    let idx = (y as usize) * stride + (x as usize / 8);
    let bit = 7 - (x as u8 % 8);
    assert(x as u8 % 8 == x % 8);
    if color == WHITE {
        buf[idx] = buf[idx] | (1u8 << bit);
    } else {
        buf[idx] = buf[idx] & !(1u8 << bit);
    }
}

/// Colour of pixel `(x, y)`; off-panel reads as white.
pub fn fb_get_pixel(buf: &[u8], w: i32, h: i32, x: i32, y: i32) -> (c: u8)
    requires
        geom_ok(w as int, h as int),
        buf@.len() >= fb_bytes(w as int, h as int),
    ensures
        c == fb_pix(buf@, w as int, h as int, x as int, y as int),
{
    if x < 0 || y < 0 || x >= w || y >= h {
        return WHITE;
    }
    proof {
        lemma_idx(w as int, h as int, x as int, y as int, x as int, y as int);
    }
    let stride = (w as usize) / 8;
    assert((y as usize) * stride <= 1024 * 128) by (nonlinear_arith)
        requires
            0 <= y < 1024,
            stride <= 128,
    ;
    let idx = (y as usize) * stride + (x as usize / 8);
    let bit = 7 - (x as u8 % 8);
    assert(x as u8 % 8 == x % 8);
    if buf[idx] & (1u8 << bit) != 0 {
        WHITE
    } else {
        BLACK
    }
}

/// Row segment of `len` pixels starting at `(x, y)`.
pub fn fb_hline_exec(buf: &mut [u8], w: i32, h: i32, x: i32, y: i32, len: i32, color: u8)
    requires
        geom_ok(w as int, h as int),
        old(buf)@.len() >= fb_bytes(w as int, h as int),
        x + len <= i32::MAX,
    ensures
        final(buf)@ == fb_hline(old(buf)@, w as int, h as int, x as int, y as int, len as int, color),
        final(buf)@.len() == old(buf)@.len(),
{
    let mut dx: i32 = 0;
    while dx < len
        invariant
            geom_ok(w as int, h as int),
            0 <= dx <= len || (len < 0 && dx == 0),
            x + len <= i32::MAX,
            buf@.len() == old(buf)@.len(),
            old(buf)@.len() >= fb_bytes(w as int, h as int),
            buf@ == fb_hline(old(buf)@, w as int, h as int, x as int, y as int, dx as int, color),
        decreases len - dx,
    {
        fb_set_pixel(buf, w, h, x + dx, y, color);
        dx += 1;
    }
}

/// Column segment of `len` pixels starting at `(x, y)`.
pub fn fb_vline_exec(buf: &mut [u8], w: i32, h: i32, x: i32, y: i32, len: i32, color: u8)
    requires
        geom_ok(w as int, h as int),
        old(buf)@.len() >= fb_bytes(w as int, h as int),
        y + len <= i32::MAX,
    ensures
        final(buf)@ == fb_vline(old(buf)@, w as int, h as int, x as int, y as int, len as int, color),
        final(buf)@.len() == old(buf)@.len(),
{
    let mut dy: i32 = 0;
    while dy < len
        invariant
            geom_ok(w as int, h as int),
            0 <= dy <= len || (len < 0 && dy == 0),
            y + len <= i32::MAX,
            buf@.len() == old(buf)@.len(),
            old(buf)@.len() >= fb_bytes(w as int, h as int),
            buf@ == fb_vline(old(buf)@, w as int, h as int, x as int, y as int, dy as int, color),
        decreases len - dy,
    {
        fb_set_pixel(buf, w, h, x, y + dy, color);
        dy += 1;
    }
}

/// Filled rectangle, row by row.
pub fn fb_fill_rect(buf: &mut [u8], w: i32, h: i32, x: i32, y: i32, rw: i32, rh: i32, color: u8)
    requires
        geom_ok(w as int, h as int),
        old(buf)@.len() >= fb_bytes(w as int, h as int),
        x + rw <= i32::MAX,
        y + rh <= i32::MAX,
    ensures
        final(buf)@ == fb_fill(old(buf)@, w as int, h as int, x as int, y as int, rw as int, rh as int, color),
        final(buf)@.len() == old(buf)@.len(),
{
    let mut dy: i32 = 0;
    while dy < rh
        invariant
            geom_ok(w as int, h as int),
            0 <= dy <= rh || (rh < 0 && dy == 0),
            x + rw <= i32::MAX,
            y + rh <= i32::MAX,
            buf@.len() == old(buf)@.len(),
            old(buf)@.len() >= fb_bytes(w as int, h as int),
            buf@ == fb_fill(old(buf)@, w as int, h as int, x as int, y as int, rw as int, dy as int, color),
        decreases rh - dy,
    {
        proof {
            lemma_len_fill(old(buf)@, w as int, h as int, x as int, y as int, rw as int, dy as int, color);
        }
        fb_hline_exec(buf, w, h, x, y + dy, rw, color);
        dy += 1;
    }
}

/// Every byte of the buffer set to white.
pub fn fb_clear(buf: &mut [u8])
    ensures
        final(buf)@ == Seq::new(old(buf)@.len(), |i: int| 0xFFu8),
{
    let n = buf.len();
    let mut i: usize = 0;
    while i < n
        invariant
            n == old(buf)@.len(),
            buf@.len() == n,
            i <= n,
            forall|k: int| 0 <= k < i ==> buf@[k] == 0xFFu8,
        decreases n - i,
    {
        buf[i] = 0xFF;
        i += 1;
    }
    assert(buf@ =~= Seq::new(old(buf)@.len(), |i: int| 0xFFu8));
}

} // verus!
