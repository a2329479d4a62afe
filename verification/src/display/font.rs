//! The 5×7 bitmap font (ASCII capitals, digits and a few signs; rows use
//! the low 5 bits, MSB = left column) and text drawing on a framebuffer.
use vstd::prelude::*;

use crate::display::fb::{fb_bytes, fb_fill, fb_fill_rect, geom_ok, FONT_W};
use crate::text::{ascii_upper, chars_of, to_ascii_upper};

verus! {

/// Glyph rows by character.
pub const FONT: [(char, [u8; 7]); 48] = [
    ('A', [0x0E, 0x11, 0x11, 0x1F, 0x11, 0x11, 0x11]),
    ('B', [0x1E, 0x11, 0x11, 0x1E, 0x11, 0x11, 0x1E]),
    ('C', [0x0E, 0x11, 0x10, 0x10, 0x10, 0x11, 0x0E]),
    ('D', [0x1E, 0x11, 0x11, 0x11, 0x11, 0x11, 0x1E]),
    ('E', [0x1F, 0x10, 0x10, 0x1E, 0x10, 0x10, 0x1F]),
    ('F', [0x1F, 0x10, 0x10, 0x1E, 0x10, 0x10, 0x10]),
    ('G', [0x0E, 0x11, 0x10, 0x17, 0x11, 0x11, 0x0E]),
    ('H', [0x11, 0x11, 0x11, 0x1F, 0x11, 0x11, 0x11]),
    ('I', [0x0E, 0x04, 0x04, 0x04, 0x04, 0x04, 0x0E]),
    ('J', [0x01, 0x01, 0x01, 0x01, 0x11, 0x11, 0x0E]),
    ('K', [0x11, 0x12, 0x14, 0x18, 0x14, 0x12, 0x11]),
    ('L', [0x10, 0x10, 0x10, 0x10, 0x10, 0x10, 0x1F]),
    ('M', [0x11, 0x1B, 0x15, 0x15, 0x11, 0x11, 0x11]),
    ('N', [0x11, 0x19, 0x15, 0x13, 0x11, 0x11, 0x11]),
    ('O', [0x0E, 0x11, 0x11, 0x11, 0x11, 0x11, 0x0E]),
    ('P', [0x1E, 0x11, 0x11, 0x1E, 0x10, 0x10, 0x10]),
    ('Q', [0x0E, 0x11, 0x11, 0x11, 0x15, 0x12, 0x0D]),
    ('R', [0x1E, 0x11, 0x11, 0x1E, 0x14, 0x12, 0x11]),
    ('S', [0x0E, 0x11, 0x10, 0x0E, 0x01, 0x11, 0x0E]),
    ('T', [0x1F, 0x04, 0x04, 0x04, 0x04, 0x04, 0x04]),
    ('U', [0x11, 0x11, 0x11, 0x11, 0x11, 0x11, 0x0E]),
    ('V', [0x11, 0x11, 0x11, 0x11, 0x11, 0x0A, 0x04]),
    ('W', [0x11, 0x11, 0x11, 0x15, 0x15, 0x1B, 0x11]),
    ('X', [0x11, 0x11, 0x0A, 0x04, 0x0A, 0x11, 0x11]),
    ('Y', [0x11, 0x11, 0x0A, 0x04, 0x04, 0x04, 0x04]),
    ('Z', [0x1F, 0x01, 0x02, 0x04, 0x08, 0x10, 0x1F]),
    ('0', [0x0E, 0x11, 0x13, 0x15, 0x19, 0x11, 0x0E]),
    ('1', [0x04, 0x0C, 0x04, 0x04, 0x04, 0x04, 0x0E]),
    ('2', [0x0E, 0x11, 0x01, 0x06, 0x08, 0x10, 0x1F]),
    ('3', [0x1F, 0x01, 0x02, 0x06, 0x01, 0x11, 0x0E]),
    ('4', [0x02, 0x06, 0x0A, 0x12, 0x1F, 0x02, 0x02]),
    ('5', [0x1F, 0x10, 0x1E, 0x01, 0x01, 0x11, 0x0E]),
    ('6', [0x06, 0x08, 0x10, 0x1E, 0x11, 0x11, 0x0E]),
    ('7', [0x1F, 0x01, 0x02, 0x04, 0x08, 0x08, 0x08]),
    ('8', [0x0E, 0x11, 0x11, 0x0E, 0x11, 0x11, 0x0E]),
    ('9', [0x0E, 0x11, 0x11, 0x0F, 0x01, 0x02, 0x0C]),
    ('.', [0x00, 0x00, 0x00, 0x00, 0x00, 0x0C, 0x0C]),
    (':', [0x00, 0x0C, 0x0C, 0x00, 0x0C, 0x0C, 0x00]),
    ('-', [0x00, 0x00, 0x00, 0x1F, 0x00, 0x00, 0x00]),
    ('%', [0x19, 0x1A, 0x02, 0x04, 0x08, 0x13, 0x03]),
    ('#', [0x0A, 0x0A, 0x1F, 0x0A, 0x1F, 0x0A, 0x0A]),
    ('/', [0x01, 0x01, 0x02, 0x04, 0x08, 0x10, 0x10]),
    ('?', [0x0E, 0x11, 0x01, 0x02, 0x04, 0x00, 0x04]),
    ('!', [0x04, 0x04, 0x04, 0x04, 0x04, 0x00, 0x04]),
    ('+', [0x00, 0x04, 0x04, 0x1F, 0x04, 0x04, 0x00]),
    ('=', [0x00, 0x00, 0x1F, 0x00, 0x1F, 0x00, 0x00]),
    ('_', [0x00, 0x00, 0x00, 0x00, 0x00, 0x00, 0x1F]),
    (' ', [0x00, 0x00, 0x00, 0x00, 0x00, 0x00, 0x00]),
];

/// Drawn for characters the font lacks: a hollow box.
pub const MISSING_GLYPH: [u8; 7] = [0x1F, 0x11, 0x11, 0x11, 0x11, 0x11, 0x1F];

/// `…`, known to the OLED font only.
pub const ELLIPSIS_GLYPH: [u8; 7] = [0x00, 0x00, 0x00, 0x00, 0x00, 0x15, 0x00];

/// Rows of the first table entry for `c`.
pub open spec fn font_lookup(tbl: Seq<(char, [u8; 7])>, c: char) -> Option<[u8; 7]>
    decreases tbl.len(),
{
    if tbl.len() == 0 {
        None
    } else if tbl[0].0 == c {
        Some(tbl[0].1)
    } else {
        font_lookup(tbl.drop_first(), c)
    }
}

/// Rows drawn for `c`; `ellipsis` selects the OLED font, which also has `…`.
pub open spec fn glyph_rows(c: char, ellipsis: bool) -> Seq<u8> {
    if ellipsis && c == '…' {
        ELLIPSIS_GLYPH@
    } else {
        match font_lookup(FONT@, c) {
            Some(g) => g@,
            None => MISSING_GLYPH@,
        }
    }
}

pub fn glyph(c: char, ellipsis: bool) -> (g: [u8; 7])
    ensures
        g@ == glyph_rows(c, ellipsis),
{
    if ellipsis && c == '…' {
        return ELLIPSIS_GLYPH;
    }
    let tbl = FONT;
    let mut i: usize = 0;
    assert(tbl@.skip(0) =~= tbl@);
    while i < 48
        invariant
            tbl@ == FONT@,
            i <= 48,
            font_lookup(FONT@, c) == font_lookup(tbl@.skip(i as int), c),
        decreases 48 - i,
    {
        assert(tbl@.skip(i as int)[0] == tbl@[i as int]);
        assert(tbl@.skip(i as int).drop_first() =~= tbl@.skip(i + 1));
        if tbl[i].0 == c {
            return tbl[i].1;
        }
        i += 1;
    }
    MISSING_GLYPH
}

/// One glyph row: for each of the 5 columns whose bit is set, a
/// `scale × scale` block, left to right.
pub open spec fn fb_row(buf: Seq<u8>, w: int, h: int, px: int, py: int, bits: u8, col: int, scale: int, color: u8) -> Seq<u8>
    decreases 5 - col,
{
    if col >= 5 {
        buf
    } else {
        let b = if bits & (1u8 << ((4 - col) as u8)) != 0 {
            fb_fill(buf, w, h, px, py, scale, scale, color)
        } else {
            buf
        };
        fb_row(b, w, h, px + scale, py, bits, col + 1, scale, color)
    }
}

/// A glyph's rows, top to bottom, from `(cx, py)`.
pub open spec fn fb_glyph(buf: Seq<u8>, w: int, h: int, cx: int, py: int, rows: Seq<u8>, scale: int, color: u8) -> Seq<u8>
    decreases rows.len(),
{
    if rows.len() == 0 {
        buf
    } else {
        fb_glyph(fb_row(buf, w, h, cx, py, rows[0], 0, scale, color), w, h, cx, py + scale, rows.drop_first(), scale, color)
    }
}

/// Text from `(cx, y)`: ASCII lower case drawn as upper case, each cell
/// `(FONT_W + 1) * scale` wide.
pub open spec fn fb_str(buf: Seq<u8>, w: int, h: int, cx: int, y: int, cs: Seq<char>, scale: int, color: u8, ellipsis: bool) -> Seq<u8>
    decreases cs.len(),
{
    if cs.len() == 0 {
        buf
    } else {
        fb_str(
            fb_glyph(buf, w, h, cx, y, glyph_rows(ascii_upper(cs[0]), ellipsis), scale, color),
            w,
            h,
            cx + (FONT_W + 1) * scale,
            y,
            cs.drop_first(),
            scale,
            color,
            ellipsis,
        )
    }
}

/// Width in pixels of `n` characters at `scale` (no trailing gap).
pub open spec fn text_w(n: int, scale: int) -> int {
    if n == 0 {
        0
    } else {
        n * (FONT_W + 1) * scale - scale
    }
}

/// Limits on where a text starts and on its scale; any length is drawn.
pub open spec fn text_fits(x: int, y: int, scale: int) -> bool {
    -400_000_000 <= x <= 400_000_000 && -100_000_000 <= y <= 100_000_000 && -10_000 <= scale <= 10_000
}

/// A start column far enough inside `i128` for any text from it.
pub open spec fn wide_x_ok(x: int) -> bool {
    -1_000_000_000_000_000_000_000_000_000_000 <= x <= 1_000_000_000_000_000_000_000_000_000_000
}

proof fn lemma_len_row(buf: Seq<u8>, w: int, h: int, px: int, py: int, bits: u8, col: int, scale: int, color: u8)
    requires
        geom_ok(w, h),
        buf.len() >= fb_bytes(w, h),
    ensures
        fb_row(buf, w, h, px, py, bits, col, scale, color).len() == buf.len(),
    decreases 5 - col,
{
    if col < 5 {
        crate::display::fb::lemma_fill_pix(buf, w, h, px, py, scale, scale, color, 0, 0);
        let b = if bits & (1u8 << ((4 - col) as u8)) != 0 {
            fb_fill(buf, w, h, px, py, scale, scale, color)
        } else {
            buf
        };
        lemma_len_row(b, w, h, px + scale, py, bits, col + 1, scale, color);
    }
}

proof fn lemma_len_glyph(buf: Seq<u8>, w: int, h: int, cx: int, py: int, rows: Seq<u8>, scale: int, color: u8)
    requires
        geom_ok(w, h),
        buf.len() >= fb_bytes(w, h),
    ensures
        fb_glyph(buf, w, h, cx, py, rows, scale, color).len() == buf.len(),
    decreases rows.len(),
{
    if rows.len() > 0 {
        lemma_len_row(buf, w, h, cx, py, rows[0], 0, scale, color);
        lemma_len_glyph(fb_row(buf, w, h, cx, py, rows[0], 0, scale, color), w, h, cx, py + scale, rows.drop_first(), scale, color);
    }
}

/// Draw one glyph with its top-left corner at `(cx, y)`.
fn draw_glyph(buf: &mut [u8], w: i32, h: i32, cx: i32, y: i32, g: &[u8; 7], scale: i32, color: u8)
    requires
        geom_ok(w as int, h as int),
        old(buf)@.len() >= fb_bytes(w as int, h as int),
        -1_100_000_000 <= cx <= 1_100_000_000,
        -200_000_000 <= y <= 200_000_000,
        -10_000 <= scale <= 10_000,
    ensures
        final(buf)@ == fb_glyph(old(buf)@, w as int, h as int, cx as int, y as int, g@, scale as int, color),
        final(buf)@.len() == old(buf)@.len(),
{
    let ghost target = fb_glyph(old(buf)@, w as int, h as int, cx as int, y as int, g@, scale as int, color);
    let mut py = y;
    let mut row: usize = 0;
    assert(g@.skip(0) =~= g@);
    while row < 7
        invariant
            geom_ok(w as int, h as int),
            buf@.len() == old(buf)@.len(),
            old(buf)@.len() >= fb_bytes(w as int, h as int),
            -1_100_000_000 <= cx <= 1_100_000_000,
            -10_000 <= scale <= 10_000,
            row <= 7,
            g@.len() == 7,
            -200_000_000 - 10_000 * row <= py <= 200_000_000 + 10_000 * row,
            fb_glyph(buf@, w as int, h as int, cx as int, py as int, g@.skip(row as int), scale as int, color) == target,
        decreases 7 - row,
    {
        let bits = g[row];
        let ghost row_start = buf@;
        let ghost row_target = fb_row(row_start, w as int, h as int, cx as int, py as int, bits, 0, scale as int, color);
        assert(g@.skip(row as int)[0] == bits);
        assert(g@.skip(row as int).drop_first() =~= g@.skip(row + 1));
        let mut px = cx;
        let mut col: i32 = 0;
        while col < FONT_W
            invariant
                geom_ok(w as int, h as int),
                buf@.len() == old(buf)@.len(),
                old(buf)@.len() >= fb_bytes(w as int, h as int),
                -1_100_000_000 <= cx <= 1_100_000_000,
                -10_000 <= scale <= 10_000,
                -300_000_000 <= py <= 300_000_000,
                0 <= col <= 5,
                -1_100_000_000 - 10_000 * col <= px <= 1_100_000_000 + 10_000 * col,
                fb_row(buf@, w as int, h as int, px as int, py as int, bits, col as int, scale as int, color) == row_target,
            decreases 5 - col,
        {
            let shift = (4 - col) as u8;
            if bits & (1u8 << shift) != 0 {
                fb_fill_rect(buf, w, h, px, py, scale, scale, color);
            }
            px = px + scale;
            col += 1;
        }
        proof {
            lemma_len_row(row_start, w as int, h as int, cx as int, py as int, bits, 0, scale as int, color);
        }
        py = py + scale;
        row += 1;
    }
}

/// A row of pixels wholly left or right of the panel, or of no width, changes nothing.
proof fn lemma_hline_off(buf: Seq<u8>, w: int, h: int, x: int, y: int, len: int, color: u8)
    requires
        x >= w || x + len <= 0,
    ensures
        crate::display::fb::fb_hline(buf, w, h, x, y, len, color) == buf,
    decreases len,
{
    if len > 0 {
        lemma_hline_off(buf, w, h, x, y, len - 1, color);
    }
}

proof fn lemma_fill_off(buf: Seq<u8>, w: int, h: int, x: int, y: int, rw: int, rh: int, color: u8)
    requires
        x >= w || x + rw <= 0,
    ensures
        fb_fill(buf, w, h, x, y, rw, rh, color) == buf,
    decreases rh,
{
    if rh > 0 {
        lemma_fill_off(buf, w, h, x, y, rw, rh - 1, color);
        lemma_hline_off(buf, w, h, x, y + rh - 1, rw, color);
    }
}

proof fn lemma_row_off(buf: Seq<u8>, w: int, h: int, px: int, py: int, bits: u8, col: int, scale: int, color: u8)
    requires
        0 <= col <= 5,
        scale <= 0 || px >= w || px + (5 - col) * scale <= 0,
    ensures
        fb_row(buf, w, h, px, py, bits, col, scale, color) == buf,
    decreases 5 - col,
{
    if col < 5 {
        if scale > 0 {
            assert((5 - col) * scale == scale + (4 - col) * scale) by (nonlinear_arith);
            assert((4 - col) * scale >= 0) by (nonlinear_arith)
                requires
                    col <= 4,
                    scale > 0,
            ;
            lemma_fill_off(buf, w, h, px, py, scale, scale, color);
        } else {
            assert(fb_fill(buf, w, h, px, py, scale, scale, color) == buf);
        }
        lemma_row_off(buf, w, h, px + scale, py, bits, col + 1, scale, color);
    }
}

proof fn lemma_glyph_off(buf: Seq<u8>, w: int, h: int, cx: int, py: int, rows: Seq<u8>, scale: int, color: u8)
    requires
        scale <= 0 || cx >= w || cx + 5 * scale <= 0,
    ensures
        fb_glyph(buf, w, h, cx, py, rows, scale, color) == buf,
    decreases rows.len(),
{
    if rows.len() > 0 {
        lemma_row_off(buf, w, h, cx, py, rows[0], 0, scale, color);
        lemma_glyph_off(buf, w, h, cx, py + scale, rows.drop_first(), scale, color);
    }
}

/// Text that starts right of the panel, or has no scale, changes nothing.
proof fn lemma_str_off(buf: Seq<u8>, w: int, h: int, cx: int, y: int, cs: Seq<char>, scale: int, color: u8, ellipsis: bool)
    requires
        scale <= 0 || cx >= w,
    ensures
        fb_str(buf, w, h, cx, y, cs, scale, color, ellipsis) == buf,
    decreases cs.len(),
{
    if cs.len() > 0 {
        lemma_glyph_off(buf, w, h, cx, y, glyph_rows(ascii_upper(cs[0]), ellipsis), scale, color);
        lemma_str_off(buf, w, h, cx + (FONT_W + 1) * scale, y, cs.drop_first(), scale, color, ellipsis);
    }
}

/// Draw `s` from column `x`, which may lie far outside the panel; glyphs that
/// fall wholly outside it are skipped, as they change nothing.
pub fn fb_draw_str_wide(buf: &mut [u8], w: i32, h: i32, x: i128, y: i32, s: &str, scale: i32, color: u8, ellipsis: bool)
    requires
        geom_ok(w as int, h as int),
        old(buf)@.len() >= fb_bytes(w as int, h as int),
        wide_x_ok(x as int),
        -100_000_000 <= y <= 100_000_000,
        -10_000 <= scale <= 10_000,
    ensures
        final(buf)@ == fb_str(old(buf)@, w as int, h as int, x as int, y as int, s@, scale as int, color, ellipsis),
        final(buf)@.len() == old(buf)@.len(),
{
    let cs = chars_of(s);
    let ghost target = fb_str(old(buf)@, w as int, h as int, x as int, y as int, s@, scale as int, color, ellipsis);
    if scale <= 0 {
        proof {
            lemma_str_off(old(buf)@, w as int, h as int, x as int, y as int, s@, scale as int, color, ellipsis);
        }
        return;
    }
    let n = cs.len();
    let mut cx: i128 = x;
    let mut i: usize = 0;
    assert(cs@.skip(0) =~= cs@);
    while i < n
        invariant
            geom_ok(w as int, h as int),
            buf@.len() == old(buf)@.len(),
            old(buf)@.len() >= fb_bytes(w as int, h as int),
            wide_x_ok(x as int),
            -100_000_000 <= y <= 100_000_000,
            0 < scale <= 10_000,
            n == cs@.len(),
            i <= n,
            x <= cx <= x + 60_000 * i,
            fb_str(buf@, w as int, h as int, cx as int, y as int, cs@.skip(i as int), scale as int, color, ellipsis) == target,
        decreases n - i,
    {
        if cx >= w as i128 {
            proof {
                lemma_str_off(buf@, w as int, h as int, cx as int, y as int, cs@.skip(i as int), scale as int, color, ellipsis);
                assert(cs@.skip(n as int).len() == 0);
            }
            i = n;
        } else {
            let ch = cs[i];
            let up = to_ascii_upper(ch);
            assert(cs@.skip(i as int)[0] == ch);
            assert(cs@.skip(i as int).drop_first() =~= cs@.skip(i + 1));
            let g = glyph(up, ellipsis);
            if cx + 5 * (scale as i128) <= 0 {
                proof {
                    lemma_glyph_off(buf@, w as int, h as int, cx as int, y as int, g@, scale as int, color);
                }
            } else {
                draw_glyph(buf, w, h, cx as i32, y, &g, scale, color);
            }
            assert((FONT_W + 1) * scale == 6 * scale);
            cx = cx + 6 * (scale as i128);
            i += 1;
        }
    }
}

/// Draw `s` from `(x, y)`; lower-case ASCII is drawn in capitals.
pub fn fb_draw_str(buf: &mut [u8], w: i32, h: i32, x: i32, y: i32, s: &str, scale: i32, color: u8, ellipsis: bool)
    requires
        geom_ok(w as int, h as int),
        old(buf)@.len() >= fb_bytes(w as int, h as int),
        text_fits(x as int, y as int, scale as int),
    ensures
        final(buf)@ == fb_str(old(buf)@, w as int, h as int, x as int, y as int, s@, scale as int, color, ellipsis),
        final(buf)@.len() == old(buf)@.len(),
{
    fb_draw_str_wide(buf, w, h, x as i128, y, s, scale, color, ellipsis);
}

/// Pixel width of `n` characters of `s` at `scale`, in a range that holds any text.
pub fn fb_text_width_wide(s: &str, scale: i32) -> (tw: i128)
    requires
        -10_000 <= scale <= 10_000,
    ensures
        tw == text_w(s@.len() as int, scale as int),
        -2_000_000_000_000_000_000_000_000 <= tw <= 2_000_000_000_000_000_000_000_000,
{
    let n = chars_of(s).len() as i128;
    if n == 0 {
        return 0;
    }
    assert(-1_200_000_000_000_000_000_000_000 <= n * 6 * (scale as i128) <= 1_200_000_000_000_000_000_000_000) by (nonlinear_arith)
        requires
            0 < n <= 18_446_744_073_709_551_615,
            -10_000 <= scale <= 10_000,
    ;
    n * 6 * (scale as i128) - (scale as i128)
}

} // verus!
