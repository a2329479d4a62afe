//! 24-bit BMP image of the e-Paper framebuffer.
use vstd::prelude::*;

use crate::display::draw::{get_pixel, px, BLACK, BYTES};

verus! {

/// `v` as four little-endian bytes.
pub open spec fn le32(v: int) -> Seq<u8> {
    seq![(v % 256) as u8, (v / 256 % 256) as u8, (v / 65536 % 256) as u8, (v / 16777216 % 256) as u8]
}

/// `v` as two little-endian bytes.
pub open spec fn le16(v: int) -> Seq<u8> {
    seq![(v % 256) as u8, (v / 256 % 256) as u8]
}

/// Bytes of one pixel row: three per pixel (200 × 3 is already a multiple of four).
pub const BMP_ROW_BYTES: usize = 600;

/// Bytes of pixel data: 200 rows.
pub const BMP_DATA_BYTES: usize = 120000;

/// Bytes of the file and info headers.
pub const BMP_HEADER_LEN: usize = 54;

/// The file header (`BM`, file size, data offset) and the 40-byte info header
/// of a 200 × 200 bottom-up 24-bit image at 2835 pixels per metre.
pub open spec fn bmp_header() -> Seq<u8> {
    seq![66u8, 77u8] + le32(54int + 120000int) + le16(0) + le16(0) + le32(54) + le32(40) + le32(200) + le32(200)
        + le16(1) + le16(24) + le32(0) + le32(120000) + le32(2835) + le32(2835) + le32(0) + le32(0)
}

/// Grey level of panel pixel `(x, y)`: 0 for black, 255 otherwise.
pub open spec fn bmp_level(buf: Seq<u8>, x: int, y: int) -> u8 {
    if px(buf, x, y) == BLACK {
        0
    } else {
        255
    }
}

/// Byte `k` of the pixel data: rows from the bottom of the panel up, each
/// pixel as three equal bytes.
pub open spec fn bmp_data_byte(buf: Seq<u8>, k: int) -> u8 {
    bmp_level(buf, (k % 600) / 3, 199 - k / 600)
}

/// The BMP file of the framebuffer `buf`.
pub open spec fn bmp_spec(buf: Seq<u8>) -> Seq<u8> {
    bmp_header() + Seq::new(120000, |k: int| bmp_data_byte(buf, k))
}

proof fn lemma_data_index(row: int, x: int, c: int)
    requires
        0 <= row < 200,
        0 <= x < 200,
        0 <= c < 3,
    ensures
        (row * 600 + x * 3 + c) / 600 == row,
        ((row * 600 + x * 3 + c) % 600) / 3 == x,
{
    vstd::arithmetic::div_mod::lemma_fundamental_div_mod_converse(row * 600 + x * 3 + c, 600, row, x * 3 + c);
    vstd::arithmetic::div_mod::lemma_fundamental_div_mod_converse(x * 3 + c, 3, x, c);
}

/// The framebuffer as a 24-bit BMP file, black pixels black and the rest white.
pub fn bmp_bytes(buf: &[u8]) -> (out: Vec<u8>)
    requires
        buf@.len() >= BYTES,
    ensures
        out@ == bmp_spec(buf@),
{
    let header: [u8; 54] = [
        66, 77, 0xF6, 0xD4, 0x01, 0x00, 0, 0, 0, 0, 54, 0, 0, 0, 40, 0, 0, 0, 200, 0, 0, 0, 200, 0, 0, 0,
        1, 0, 24, 0, 0, 0, 0, 0, 0xC0, 0xD4, 0x01, 0x00, 0x13, 0x0B, 0, 0, 0x13, 0x0B, 0, 0, 0, 0, 0, 0,
        0, 0, 0, 0,
    ];
    assert(header@ =~= bmp_header());
    let mut out: Vec<u8> = Vec::new();
    let mut i: usize = 0;
    while i < BMP_HEADER_LEN
        invariant
            i <= 54,
            header@ == bmp_header(),
            out@ == header@.take(i as int),
        decreases 54 - i,
    {
        out.push(header[i]);
        i += 1;
        assert(out@ =~= header@.take(i as int));
    }
    assert(header@.take(54) =~= header@);
    let ghost data = Seq::new(120000, |k: int| bmp_data_byte(buf@, k));
    let mut row: usize = 0;
    while row < 200
        invariant
            row <= 200,
            buf@.len() >= BYTES,
            data == Seq::new(120000, |k: int| bmp_data_byte(buf@, k)),
            out@ == bmp_header() + data.take(row * 600),
        decreases 200 - row,
    {
        let y = (199 - row) as i32;
        let mut x: usize = 0;
        while x < 200
            invariant
                row < 200,
                x <= 200,
                y == 199 - row,
                buf@.len() >= BYTES,
                data == Seq::new(120000, |k: int| bmp_data_byte(buf@, k)),
                out@ == bmp_header() + data.take(row * 600 + x * 3),
            decreases 200 - x,
        {
            let v: u8 = if get_pixel(buf, x as i32, y) == BLACK {
                0
            } else {
                255
            };
            let base = row * 600 + x * 3;
            proof {
                lemma_data_index(row as int, x as int, 0);
                lemma_data_index(row as int, x as int, 1);
                lemma_data_index(row as int, x as int, 2);
                assert(data[base as int] == v);
                assert(data[base + 1] == v);
                assert(data[base + 2] == v);
            }
            out.push(v);
            out.push(v);
            out.push(v);
            x += 1;
            assert(out@ =~= bmp_header() + data.take(row * 600 + x * 3));
        }
        row += 1;
    }
    assert(data.take(120000) =~= data);
    out
}

} // verus!
