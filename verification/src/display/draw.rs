//! 200×200 monochrome e-Paper framebuffer — drawing primitives.
use vstd::prelude::*;

use crate::display::fb::{
    fb_bytes, fb_clear, fb_fill, fb_fill_rect, fb_get_pixel, fb_hline, fb_hline_exec, fb_in, fb_pix,
    fb_set, fb_set_pixel, fb_vline, fb_vline_exec, geom_ok, lemma_set_pix, paint,
};
use crate::display::font::{fb_draw_str, fb_draw_str_wide, fb_str, fb_text_width_wide, text_fits, text_w};
use crate::text::tdiv;

verus! {

pub const WIDTH: u16 = 200;

pub const HEIGHT: u16 = 200;

pub const BYTES: usize = 5000;

pub const BLACK: u8 = 0;

pub const WHITE: u8 = 1;

/// Screen margin, header height and footer position shared by the screens.
pub const MARGIN: i32 = 12;

pub const HEADER_H: i32 = 28;

pub open spec fn px(buf: Seq<u8>, x: int, y: int) -> u8 {
    fb_pix(buf, 200, 200, x, y)
}

/// Text of `s` at `(x, y)` on the e-Paper panel.
pub open spec fn str_at(buf: Seq<u8>, x: int, y: int, s: Seq<char>, scale: int, color: u8) -> Seq<u8> {
    fb_str(buf, 200, 200, x, y, s, scale, color, false)
}

/// Text of `s` centred on column `cx`.
pub open spec fn str_centered(buf: Seq<u8>, cx: int, y: int, s: Seq<char>, scale: int, color: u8) -> Seq<u8> {
    str_at(buf, cx - tdiv(text_w(s.len() as int, scale), 2), y, s, scale, color)
}

/// The width of `n` characters at `scale` and each step of computing it stay
/// inside `i32`, as `text_width` computes it.
pub open spec fn width_fits(n: int, scale: int) -> bool {
    &&& n <= i32::MAX
    &&& i32::MIN <= n * 6 <= i32::MAX
    &&& i32::MIN <= n * 6 * scale <= i32::MAX
    &&& i32::MIN <= n * 6 * scale - scale <= i32::MAX
}

proof fn lemma_geom()
    ensures
        geom_ok(200, 200),
        fb_bytes(200, 200) == BYTES,
{
}

/// Set one pixel (MSB-first within each byte, row-major).
pub fn set_pixel(buf: &mut [u8], x: i32, y: i32, color: u8)
    requires
        old(buf)@.len() >= BYTES,
    ensures
        final(buf)@ == fb_set(old(buf)@, 200, 200, x as int, y as int, color),
        final(buf)@.len() == old(buf)@.len(),
{
    fb_set_pixel(buf, 200, 200, x, y, color);
}

pub fn get_pixel(buf: &[u8], x: i32, y: i32) -> (c: u8)
    requires
        buf@.len() >= BYTES,
    ensures
        c == px(buf@, x as int, y as int),
{
    fb_get_pixel(buf, 200, 200, x, y)
}

pub fn fill_rect(buf: &mut [u8], x: i32, y: i32, w: i32, h: i32, color: u8)
    requires
        old(buf)@.len() >= BYTES,
        x + w <= i32::MAX,
        y + h <= i32::MAX,
    ensures
        final(buf)@ == fb_fill(old(buf)@, 200, 200, x as int, y as int, w as int, h as int, color),
        final(buf)@.len() == old(buf)@.len(),
{
    fb_fill_rect(buf, 200, 200, x, y, w, h, color);
}

pub fn hline(buf: &mut [u8], x: i32, y: i32, w: i32, color: u8)
    requires
        old(buf)@.len() >= BYTES,
        x + w <= i32::MAX,
    ensures
        final(buf)@ == fb_hline(old(buf)@, 200, 200, x as int, y as int, w as int, color),
        final(buf)@.len() == old(buf)@.len(),
{
    fb_hline_exec(buf, 200, 200, x, y, w, color);
}

pub fn vline(buf: &mut [u8], x: i32, y: i32, h: i32, color: u8)
    requires
        old(buf)@.len() >= BYTES,
        y + h <= i32::MAX,
    ensures
        final(buf)@ == fb_vline(old(buf)@, 200, 200, x as int, y as int, h as int, color),
        final(buf)@.len() == old(buf)@.len(),
{
    fb_vline_exec(buf, 200, 200, x, y, h, color);
}

/// Direction of a line's steps along one axis: `+1` towards a larger end, else `-1`.
pub open spec fn step_dir(a: int, b: int) -> int {
    if a < b {
        1
    } else {
        -1
    }
}

/// `abs` on integers.
pub open spec fn iabs(v: int) -> int {
    if v < 0 {
        -v
    } else {
        v
    }
}

/// `(px, py)` lies in the box spanned by the segment from `(x0, y0)` to
/// `(x1, y1)` and within `(dx + dy) / |d|` (at most √2 pixels) of it: the cross
/// product of its offset with the segment is at most `dx + dy`.
pub open spec fn near_segment(x0: int, y0: int, x1: int, y1: int, px: int, py: int) -> bool {
    let dx = iabs(x1 - x0);
    let dy = iabs(y1 - y0);
    let i = (px - x0) * step_dir(x0, x1);
    let j = (py - y0) * step_dir(y0, y1);
    &&& 0 <= i <= dx
    &&& 0 <= j <= dy
    &&& -(dx + dy) <= j * dx - i * dy <= dx + dy
}

/// `post` is `pre` with exactly the on-screen pixels of `pts` painted `color`.
pub open spec fn painted(pre: Seq<u8>, post: Seq<u8>, pts: Set<(int, int)>, color: u8) -> bool {
    &&& post.len() == pre.len()
    &&& forall|x: int, y: int|
        #[trigger] px(post, x, y) == if pts.contains((x, y)) && fb_in(200, 200, x, y) {
            paint(color)
        } else {
            px(pre, x, y)
        }
}

proof fn lemma_paint_one(pre: Seq<u8>, cur: Seq<u8>, pts: Set<(int, int)>, x: int, y: int, color: u8)
    requires
        pre.len() >= BYTES,
        painted(pre, cur, pts, color),
    ensures
        painted(pre, fb_set(cur, 200, 200, x, y, color), pts.insert((x, y)), color),
{
    lemma_geom();
    let nxt = fb_set(cur, 200, 200, x, y, color);
    assert forall|a: int, b: int|
        #[trigger] px(nxt, a, b) == if pts.insert((x, y)).contains((a, b)) && fb_in(200, 200, a, b) {
            paint(color)
        } else {
            px(pre, a, b)
        } by {
        lemma_set_pix(cur, 200, 200, x, y, color, a, b);
        assert(px(cur, a, b) == if pts.contains((a, b)) && fb_in(200, 200, a, b) {
            paint(color)
        } else {
            px(pre, a, b)
        });
    }
    lemma_set_pix(cur, 200, 200, x, y, color, 0, 0);
}

/// Bresenham line from `(x0, y0)` to `(x1, y1)`, both ends included.
pub fn line(buf: &mut [u8], x0: i32, y0: i32, x1: i32, y1: i32, color: u8)
    requires
        old(buf)@.len() >= BYTES,
        iabs(x1 - x0) < 0x2000_0000,
        iabs(y1 - y0) < 0x2000_0000,
    ensures
        exists|pts: Set<(int, int)>|
            {
                &&& #[trigger] painted(old(buf)@, final(buf)@, pts, color)
                &&& pts.contains((x0 as int, y0 as int))
                &&& pts.contains((x1 as int, y1 as int))
                &&& forall|p: (int, int)|
                    pts.contains(p) ==> near_segment(
                        x0 as int,
                        y0 as int,
                        x1 as int,
                        y1 as int,
                        p.0,
                        p.1,
                    )
            },
{
    let mut x = x0;
    let mut y = y0;
    let dx: i32 = if x1 - x0 < 0 { x0 - x1 } else { x1 - x0 };
    let dy: i32 = if y1 - y0 < 0 { y1 - y0 } else { y0 - y1 };
    let sx: i32 = if x0 < x1 { 1 } else { -1 };
    let sy: i32 = if y0 < y1 { 1 } else { -1 };
    let mut err: i32 = dx + dy;
    let ghost mut i: int = 0;
    let ghost mut j: int = 0;
    let ghost ady: int = -dy;
    let ghost mut pts: Set<(int, int)> = Set::empty();
    proof {
        assert(painted(old(buf)@, buf@, pts, color));
        lemma_paint_one(old(buf)@, buf@, pts, x as int, y as int, color);
    }
    set_pixel(buf, x, y, color);
    proof {
        pts = pts.insert((x as int, y as int));
        let ddx = iabs(x1 - x0);
        let ddy = iabs(y1 - y0);
        assert((x - x0) * step_dir(x0 as int, x1 as int) == 0);
        assert((y - y0) * step_dir(y0 as int, y1 as int) == 0);
        assert(0 * ddy == 0 && 0 * ddx == 0);
        assert(near_segment(x0 as int, y0 as int, x1 as int, y1 as int, x as int, y as int));
    }
    while !(x == x1 && y == y1)
        invariant
            old(buf)@.len() >= BYTES,
            buf@.len() == old(buf)@.len(),
            dx == iabs(x1 - x0),
            ady == iabs(y1 - y0),
            dy == -ady,
            dx < 0x2000_0000,
            ady < 0x2000_0000,
            sx == step_dir(x0 as int, x1 as int),
            sy == step_dir(y0 as int, y1 as int),
            0 <= i <= dx,
            0 <= j <= ady,
            x == x0 + sx * i,
            y == y0 + sy * j,
            err == dx + dy + i * dy + j * dx,
            2 * dy <= err <= 2 * dx,
            painted(old(buf)@, buf@, pts, color),
            pts.contains((x0 as int, y0 as int)),
            pts.contains((x as int, y as int)),
            forall|p: (int, int)|
                pts.contains(p) ==> near_segment(x0 as int, y0 as int, x1 as int, y1 as int, p.0, p.1),
        decreases dx - i + ady - j,
    {
        proof {
            if x1 < x0 {
                assert(x1 == x0 - dx);
            } else {
                assert(x1 == x0 + dx);
            }
            if y1 < y0 {
                assert(y1 == y0 - ady);
            } else {
                assert(y1 == y0 + ady);
            }
            if i == dx {
                assert(j < ady);
                assert(err <= dy) by (nonlinear_arith)
                    requires
                        err == dx + dy + i * dy + j * dx,
                        i == dx,
                        dx >= 0,
                        1 + dy + j <= 0,
                ;
            }
            if j == ady {
                assert(i < dx);
                assert(err >= dx) by (nonlinear_arith)
                    requires
                        err == dx + dy + i * dy + j * dx,
                        j == ady,
                        dy == -ady,
                        ady >= 0,
                        1 + i <= dx,
                ;
            }
        }
        let e2 = 2 * err;
        if e2 >= dy {
            err = err + dy;
            x = x + sx;
            proof {
                assert((i + 1) * dy == i * dy + dy) by (nonlinear_arith);
                i = i + 1;
            }
        }
        if e2 <= dx {
            err = err + dx;
            y = y + sy;
            proof {
                assert((j + 1) * dx == j * dx + dx) by (nonlinear_arith);
                j = j + 1;
            }
        }
        proof {
            lemma_paint_one(old(buf)@, buf@, pts, x as int, y as int, color);
            let si = sx as int;
            let sj = sy as int;
            assert((x - x0) * si == i) by (nonlinear_arith)
                requires
                    x - x0 == si * i,
                    si == 1 || si == -1,
            ;
            assert((y - y0) * sj == j) by (nonlinear_arith)
                requires
                    y - y0 == sj * j,
                    sj == 1 || sj == -1,
            ;
            assert(j * dx - i * ady == err - dx - dy) by (nonlinear_arith)
                requires
                    err == dx + dy + i * dy + j * dx,
                    dy == -ady,
            ;
        }
        set_pixel(buf, x, y, color);
        proof {
            pts = pts.insert((x as int, y as int));
        }
    }
}

/// Row `yy` of a disc: columns `-r .. -r + n` painted where inside the circle.
pub open spec fn disc_row(buf: Seq<u8>, cx: int, cy: int, r: int, yy: int, n: int, color: u8) -> Seq<u8>
    decreases n,
{
    if n <= 0 {
        buf
    } else {
        let xx = -r + n - 1;
        let b = disc_row(buf, cx, cy, r, yy, n - 1, color);
        if xx * xx + yy * yy <= r * r {
            fb_set(b, 200, 200, cx + xx, cy + yy, color)
        } else {
            b
        }
    }
}

/// Rows `-r .. -r + m` of the disc of radius `r` at `(cx, cy)`.
pub open spec fn disc(buf: Seq<u8>, cx: int, cy: int, r: int, m: int, color: u8) -> Seq<u8>
    decreases m,
{
    if m <= 0 {
        buf
    } else {
        disc_row(disc(buf, cx, cy, r, m - 1, color), cx, cy, r, -r + m - 1, 2 * r + 1, color)
    }
}

proof fn lemma_len_disc_row(buf: Seq<u8>, cx: int, cy: int, r: int, yy: int, n: int, color: u8)
    requires
        buf.len() >= BYTES,
    ensures
        disc_row(buf, cx, cy, r, yy, n, color).len() == buf.len(),
    decreases n,
{
    if n > 0 {
        lemma_len_disc_row(buf, cx, cy, r, yy, n - 1, color);
        crate::display::fb::lemma_set_pix(disc_row(buf, cx, cy, r, yy, n - 1, color), 200, 200, cx - r + n - 1, cy + yy, color, 0, 0);
    }
}

/// Filled disc: every pixel within distance `r` of `(cx, cy)`.
pub fn fill_circle(buf: &mut [u8], cx: i32, cy: i32, r: i32, color: u8)
    requires
        old(buf)@.len() >= BYTES,
        -100_000_000 <= cx <= 100_000_000,
        -100_000_000 <= cy <= 100_000_000,
        -10_000 <= r <= 10_000,
    ensures
        final(buf)@ == disc(old(buf)@, cx as int, cy as int, r as int, 2 * r + 1, color),
        final(buf)@.len() == old(buf)@.len(),
{
    let ghost b0 = old(buf)@;
    let mut yy: i32 = -r;
    while yy <= r
        invariant
            old(buf)@.len() >= BYTES,
            buf@.len() == b0.len(),
            b0 == old(buf)@,
            -10_000 <= r <= 10_000,
            -100_000_000 <= cx <= 100_000_000,
            -100_000_000 <= cy <= 100_000_000,
            -r <= yy <= r + 1 || (r < 0 && yy == -r),
            buf@ == disc(b0, cx as int, cy as int, r as int, yy + r, color),
        decreases r + 1 - yy,
    {
        let ghost row_start = buf@;
        let mut xx: i32 = -r;
        while xx <= r
            invariant
                b0.len() >= BYTES,
                row_start.len() == b0.len(),
                buf@.len() == b0.len(),
                -10_000 <= r <= 10_000,
                -r <= yy <= r,
                -100_000_000 <= cx <= 100_000_000,
                -100_000_000 <= cy <= 100_000_000,
                -r <= xx <= r + 1,
                buf@ == disc_row(row_start, cx as int, cy as int, r as int, yy as int, xx + r, color),
            decreases r + 1 - xx,
        {
            assert(-10_000 <= xx <= 10_000 && -10_000 <= yy <= 10_000);
            assert(0 <= xx * xx <= 100_000_000) by (nonlinear_arith)
                requires
                    -10_000 <= xx <= 10_000,
            ;
            assert(0 <= yy * yy <= 100_000_000) by (nonlinear_arith)
                requires
                    -10_000 <= yy <= 10_000,
            ;
            assert(0 <= r * r <= 100_000_000) by (nonlinear_arith)
                requires
                    -10_000 <= r <= 10_000,
            ;
            if xx * xx + yy * yy <= r * r {
                set_pixel(buf, cx + xx, cy + yy, color);
            }
            proof {
                lemma_len_disc_row(row_start, cx as int, cy as int, r as int, yy as int, xx + r + 1, color);
            }
            xx += 1;
        }
        yy += 1;
    }
}

/// Pixel width of `s` at `scale`.
pub fn text_width(s: &str, scale: i32) -> (w: i32)
    requires
        -10_000 <= scale <= 10_000,
        width_fits(s@.len() as int, scale as int),
    ensures
        w == text_w(s@.len() as int, scale as int),
{
    let tw = fb_text_width_wide(s, scale);
    tw as i32
}

/// Draw `s` from `(x, y)` in the 5×7 font (lower case drawn as capitals).
pub fn draw_str(buf: &mut [u8], x: i32, y: i32, s: &str, scale: i32, color: u8)
    requires
        old(buf)@.len() >= BYTES,
        text_fits(x as int, y as int, scale as int),
    ensures
        final(buf)@ == str_at(old(buf)@, x as int, y as int, s@, scale as int, color),
        final(buf)@.len() == old(buf)@.len(),
{
    fb_draw_str(buf, 200, 200, x, y, s, scale, color, false);
}

/// Draw `s` centred on column `cx`.
pub fn draw_str_centered(buf: &mut [u8], cx: i32, y: i32, s: &str, scale: i32, color: u8)
    requires
        old(buf)@.len() >= BYTES,
        -100_000_000 <= cx <= 100_000_000,
        -100_000_000 <= y <= 100_000_000,
        -10_000 <= scale <= 10_000,
    ensures
        final(buf)@ == str_centered(old(buf)@, cx as int, y as int, s@, scale as int, color),
        final(buf)@.len() == old(buf)@.len(),
{
    let w = fb_text_width_wide(s, scale);
    fb_draw_str_wide(buf, 200, 200, cx as i128 - w / 2, y, s, scale, color, false);
}

/// Draw `s` ending `right` pixels from the panel's right edge.
fn draw_str_right(buf: &mut [u8], right: i32, y: i32, s: &str, color: u8)
    requires
        old(buf)@.len() >= BYTES,
        0 <= right <= 200,
        -100_000_000 <= y <= 100_000_000,
    ensures
        final(buf)@ == str_at(old(buf)@, 200 - right - text_w(s@.len() as int, 1), y as int, s@, 1, color),
        final(buf)@.len() == old(buf)@.len(),
{
    let w = fb_text_width_wide(s, 1);
    fb_draw_str_wide(buf, 200, 200, 200 - right as i128 - w, y, s, 1, color, false);
}

/// Black title bar with the title centred in white, and an optional
/// right-aligned label.
pub open spec fn header_spec(buf: Seq<u8>, title: Seq<char>, right: Option<Seq<char>>) -> Seq<u8> {
    let b = str_centered(fb_fill(buf, 200, 200, 0, 0, 200, HEADER_H as int, BLACK), 100, 10, title, 1, WHITE);
    match right {
        Some(r) => str_at(b, 200 - 8 - text_w(r.len() as int, 1), 10, r, 1, WHITE),
        None => b,
    }
}

pub fn draw_header(buf: &mut [u8], title: &str, right: Option<&str>)
    requires
        old(buf)@.len() >= BYTES,
    ensures
        final(buf)@ == header_spec(old(buf)@, title@, match right {
            Some(r) => Some(r@),
            None => None,
        }),
        final(buf)@.len() == old(buf)@.len(),
{
    fill_rect(buf, 0, 0, WIDTH as i32, HEADER_H, BLACK);
    draw_str_centered(buf, (WIDTH / 2) as i32, 10, title, 1, WHITE);
    if let Some(r) = right {
        draw_str_right(buf, 8, 10, r, WHITE);
    }
}

/// Title centred in black above a thin rule, with an optional right label.
pub open spec fn soft_header_spec(buf: Seq<u8>, title: Seq<char>, right: Option<Seq<char>>) -> Seq<u8> {
    let b = fb_hline(str_centered(buf, 100, 10, title, 1, BLACK), 200, 200, MARGIN as int, HEADER_H - 4, 200 - 2 * MARGIN, BLACK);
    match right {
        Some(r) => str_at(b, 200 - 8 - text_w(r.len() as int, 1), 10, r, 1, BLACK),
        None => b,
    }
}

/// Light header: title in black over a thin rule instead of a black bar.
pub fn draw_soft_header(buf: &mut [u8], title: &str, right: Option<&str>)
    requires
        old(buf)@.len() >= BYTES,
    ensures
        final(buf)@ == soft_header_spec(old(buf)@, title@, match right {
            Some(r) => Some(r@),
            None => None,
        }),
        final(buf)@.len() == old(buf)@.len(),
{
    draw_str_centered(buf, (WIDTH / 2) as i32, 10, title, 1, BLACK);
    hline(buf, MARGIN, HEADER_H - 4, WIDTH as i32 - 2 * MARGIN, BLACK);
    if let Some(r) = right {
        draw_str_right(buf, 8, 10, r, BLACK);
    }
}

/// Footer: rule at row 179, white strip, left and right button labels.
pub open spec fn hints_spec(buf: Seq<u8>, rec: Seq<char>, pwr: Seq<char>) -> Seq<u8> {
    let b = fb_fill(fb_hline(buf, 200, 200, 0, 179, 200, BLACK), 200, 200, 0, 180, 200, 20, WHITE);
    str_at(str_at(b, 8, 186, rec, 1, BLACK), 200 - 8 - text_w(pwr.len() as int, 1), 186, pwr, 1, BLACK)
}

pub fn draw_hints(buf: &mut [u8], rec_label: &str, pwr_label: &str)
    requires
        old(buf)@.len() >= BYTES,
    ensures
        final(buf)@ == hints_spec(old(buf)@, rec_label@, pwr_label@),
        final(buf)@.len() == old(buf)@.len(),
{
    hline(buf, 0, 179, WIDTH as i32, BLACK);
    fill_rect(buf, 0, 180, WIDTH as i32, 20, WHITE);
    draw_str(buf, 8, 186, rec_label, 1, BLACK);
    draw_str_right(buf, 8, 186, pwr_label, BLACK);
}

/// Outline `t` pixels thick, drawn ring by ring from the outside in.
pub open spec fn outline(buf: Seq<u8>, x: int, y: int, w: int, h: int, t: int, color: u8) -> Seq<u8>
    decreases t,
{
    if t <= 0 {
        buf
    } else {
        let i = t - 1;
        let b = outline(buf, x, y, w, h, t - 1, color);
        let b1 = fb_hline(b, 200, 200, x, y + i, w, color);
        let b2 = fb_hline(b1, 200, 200, x, y + h - 1 - i, w, color);
        let b3 = fb_vline(b2, 200, 200, x + i, y, h, color);
        fb_vline(b3, 200, 200, x + w - 1 - i, y, h, color)
    }
}

/// Rectangle outline `t` pixels thick.
pub fn stroke_rect(buf: &mut [u8], x: i32, y: i32, w: i32, h: i32, t: i32, color: u8)
    requires
        old(buf)@.len() >= BYTES,
        -100_000_000 <= x <= 100_000_000,
        -100_000_000 <= y <= 100_000_000,
        -100_000_000 <= w <= 100_000_000,
        -100_000_000 <= h <= 100_000_000,
        t <= 100_000_000,
    ensures
        final(buf)@ == outline(old(buf)@, x as int, y as int, w as int, h as int, t as int, color),
        final(buf)@.len() == old(buf)@.len(),
{
    let mut i: i32 = 0;
    while i < t
        invariant
            old(buf)@.len() >= BYTES,
            buf@.len() == old(buf)@.len(),
            -100_000_000 <= x <= 100_000_000,
            -100_000_000 <= y <= 100_000_000,
            -100_000_000 <= w <= 100_000_000,
            -100_000_000 <= h <= 100_000_000,
            0 <= i <= t || (t < 0 && i == 0),
            t <= 100_000_000,
            buf@ == outline(old(buf)@, x as int, y as int, w as int, h as int, i as int, color),
        decreases t - i,
    {
        hline(buf, x, y + i, w, color);
        hline(buf, x, y + h - 1 - i, w, color);
        vline(buf, x + i, y, h, color);
        vline(buf, x + w - 1 - i, y, h, color);
        i += 1;
    }
}

/// Selectable list row: outlined when selected, label inset.
pub open spec fn select_row_spec(buf: Seq<u8>, y: int, label: Seq<char>, selected: bool) -> Seq<u8> {
    let b = if selected {
        outline(buf, MARGIN as int, y, 200 - 2 * MARGIN, 24, 1, BLACK)
    } else {
        buf
    };
    str_at(b, MARGIN + 8, y + 8, label, 1, BLACK)
}

pub fn draw_select_row(buf: &mut [u8], y: i32, label: &str, selected: bool)
    requires
        old(buf)@.len() >= BYTES,
        -10_000_000 <= y <= 10_000_000,
    ensures
        final(buf)@ == select_row_spec(old(buf)@, y as int, label@, selected),
        final(buf)@.len() == old(buf)@.len(),
{
    if selected {
        stroke_rect(buf, MARGIN, y, WIDTH as i32 - 2 * MARGIN, 24, 1, BLACK);
    }
    draw_str(buf, MARGIN + 8, y + 8, label, 1, BLACK);
}

/// `n` 3×3 blocks stepping right and `dir` rows down (`-1` = up) from `(x, y)`.
pub open spec fn stroke_steps(buf: Seq<u8>, x: int, y: int, n: int, dir: int) -> Seq<u8>
    decreases n,
{
    if n <= 0 {
        buf
    } else {
        let i = n - 1;
        fb_fill(stroke_steps(buf, x, y, n - 1, dir), 200, 200, x + i, y + dir * i, 3, 3, BLACK)
    }
}

fn draw_steps(buf: &mut [u8], x: i32, y: i32, n: i32, dir: i32)
    requires
        old(buf)@.len() >= BYTES,
        -100_000_000 <= x <= 100_000_000,
        -100_000_000 <= y <= 100_000_000,
        0 <= n <= 1000,
        dir == 1 || dir == -1,
    ensures
        final(buf)@ == stroke_steps(old(buf)@, x as int, y as int, n as int, dir as int),
        final(buf)@.len() == old(buf)@.len(),
{
    let mut i: i32 = 0;
    while i < n
        invariant
            old(buf)@.len() >= BYTES,
            buf@.len() == old(buf)@.len(),
            -100_000_000 <= x <= 100_000_000,
            -100_000_000 <= y <= 100_000_000,
            0 <= i <= n <= 1000,
            dir == 1 || dir == -1,
            buf@ == stroke_steps(old(buf)@, x as int, y as int, i as int, dir as int),
        decreases n - i,
    {
        let dy = if dir == 1 { i } else { -i };
        assert(dy == dir * i) by (nonlinear_arith)
            requires
                dir == 1 || dir == -1,
                dir == 1 ==> dy == i,
                dir == -1 ==> dy == -i,
        ;
        fill_rect(buf, x + i, y + dy, 3, 3, BLACK);
        i += 1;
    }
}

/// Check mark centred near `(cx, cy)`: a short stroke down, a long stroke up.
pub open spec fn check_spec(buf: Seq<u8>, cx: int, cy: int) -> Seq<u8> {
    stroke_steps(stroke_steps(buf, cx - 14, cy - 2, 8, 1), cx - 7, cy + 5, 16, -1)
}

pub fn draw_check(buf: &mut [u8], cx: i32, cy: i32)
    requires
        old(buf)@.len() >= BYTES,
        -10_000_000 <= cx <= 10_000_000,
        -10_000_000 <= cy <= 10_000_000,
    ensures
        final(buf)@ == check_spec(old(buf)@, cx as int, cy as int),
        final(buf)@.len() == old(buf)@.len(),
{
    draw_steps(buf, cx - 14, cy - 2, 8, 1);
    draw_steps(buf, cx - 7, cy + 5, 16, -1);
}

/// Whole buffer white.
pub fn clear_screen(buf: &mut [u8])
    ensures
        final(buf)@ == Seq::new(old(buf)@.len(), |i: int| 0xFFu8),
{
    fb_clear(buf);
}

} // verus!
