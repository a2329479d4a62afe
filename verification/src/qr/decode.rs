//! Decode a QR payload from a grayscale frame buffer.
use vstd::prelude::*;
use vstd::utf8::encode_utf8;


verus! {

/// Maximum accepted UTF-8 payload length (QR Version 40 binary capacity).
pub const MAX_PAYLOAD_BYTES: usize = 2_953;

/// Successful decode of one QR symbol.
#[derive(Debug, Clone, PartialEq, Eq)]
pub struct DecodeResult {
    pub payload: String,
    pub version: Option<u8>,
    pub ecc_level: Option<u8>,
}

/// Errors from [`decode_grayscale`].
#[derive(Debug, Clone, PartialEq, Eq)]
pub enum DecodeError {
    /// No QR code found in the frame.
    NotFound,
    /// A QR code was found but is too blurry or corrupt to decode.
    TooBlurry,
    /// The decoded payload is not valid UTF-8.
    InvalidUtf8,
    /// The decoded payload exceeds `MAX_PAYLOAD_BYTES`.
    TooLarge,
    /// The frame itself is unusable.
    InvalidFrame(&'static str),
}

/// What the scanner found in a frame, as plain values.
#[derive(Debug, Clone, PartialEq, Eq)]
pub enum ScanOutcome {
    /// No symbol was located.
    NoGrid,
    /// The first symbol's payload was not UTF-8.
    NotUtf8,
    /// The first symbol could not be read (bad format, ECC, version, …).
    Unreadable,
    /// The first symbol's version, error-correction level and payload.
    Decoded { version: usize, ecc_level: u16, content: String },
}

/// What `rqrr` reads from one detected symbol, as plain values.
#[derive(Debug, Clone, PartialEq, Eq)]
pub enum SymbolRead {
    /// The payload was not UTF-8.
    NotUtf8,
    /// The symbol could not be read (bad format, ECC, version, …).
    Unreadable,
    /// The symbol's version, error-correction level and payload.
    Decoded { version: usize, ecc_level: u16, content: String },
}

/// A scan outcome as `None` (no symbol), `Some(Err(utf8))` (unreadable;
/// `utf8` when only the text encoding failed) or `Some(Ok(..))`.
pub open spec fn scan_view(s: ScanOutcome) -> Option<Result<(usize, u16, Seq<char>), bool>> {
    match s {
        ScanOutcome::NoGrid => None,
        ScanOutcome::NotUtf8 => Some(Err(true)),
        ScanOutcome::Unreadable => Some(Err(false)),
        ScanOutcome::Decoded { version, ecc_level, content } => Some(Ok((version, ecc_level, content@))),
    }
}

/// One detected symbol as `rqrr` reads it: `Err(utf8)` when it is unreadable
/// (`utf8` when only the text encoding failed), else its version,
/// error-correction level and payload.
pub open spec fn symbol_view(s: SymbolRead) -> Result<(usize, u16, Seq<char>), bool> {
    match s {
        SymbolRead::NotUtf8 => Err(true),
        SymbolRead::Unreadable => Err(false),
        SymbolRead::Decoded { version, ecc_level, content } => Ok((version, ecc_level, content@)),
    }
}

/// What `rqrr` reads from the first symbol it detects in a `width × height`
/// grayscale frame: one reading, or none when it detects no symbol.
pub uninterp spec fn qr_symbols(width: usize, height: usize, pixels: Seq<u8>) -> Seq<Result<(usize, u16, Seq<char>), bool>>;

/// What the scan keeps: the first detected symbol's reading, or nothing.
pub open spec fn qr_scan(width: usize, height: usize, pixels: Seq<u8>) -> Option<Result<(usize, u16, Seq<char>), bool>> {
    let syms = qr_symbols(width, height, pixels);
    if syms.len() == 0 {
        None
    } else {
        Some(syms[0])
    }
}

/// Gray level of pixel `(x, y)` of a row-major frame.
pub fn grey_at(pixels: &[u8], width: usize, x: usize, y: usize) -> (g: u8)
    requires
        x < width,
        y * width + x < pixels@.len(),
    ensures
        g == pixels@[y * width + x],
{
    let n = pixels.len();
    assert(y * width <= y * width + x < n);
    pixels[y * width + x]
}

/// `rqrr`: prepare the frame from its gray levels, detect its symbols, and
/// read the first one detected; the reading is converted variant by variant.
/// The contract claims only that the result is a function of the frame.
/// A return is not promised on every frame it admits: `rqrr`'s geometry and
/// decoding code hold assertions and indexing whose failure on some frame is
/// not ruled out here.
#[verifier::external_body]
fn scan_symbols(width: usize, height: usize, pixels: &[u8]) -> (r: Vec<SymbolRead>)
    requires
        width > 0,
        height > 0,
        width * height == pixels@.len(),
    ensures
        r@.len() <= 1,
        r@.map_values(|s: SymbolRead| symbol_view(s)) == qr_symbols(width, height, pixels@),
{
    let mut img = rqrr::PreparedImage::prepare_from_greyscale(width, height, |x, y| grey_at(pixels, width, x, y));
    let mut out = Vec::new();
    for g in img.detect_grids().iter().take(1) {
        out.push(match g.decode() {
            Ok((meta, content)) => SymbolRead::Decoded { version: meta.version.0, ecc_level: meta.ecc_level, content },
            Err(rqrr::DeQRError::EncodingError) => SymbolRead::NotUtf8,
            Err(_) => SymbolRead::Unreadable,
        });
    }
    out
}

/// The first symbol's reading, or `NoGrid` when none was detected.
pub fn first_symbol(syms: Vec<SymbolRead>) -> (r: ScanOutcome)
    ensures
        scan_view(r) == (if syms@.len() == 0 {
            None
        } else {
            Some(symbol_view(syms@[0]))
        }),
{
    let mut syms = syms;
    if syms.len() == 0 {
        return ScanOutcome::NoGrid;
    }
    match syms.swap_remove(0) {
        SymbolRead::NotUtf8 => ScanOutcome::NotUtf8,
        SymbolRead::Unreadable => ScanOutcome::Unreadable,
        SymbolRead::Decoded { version, ecc_level, content } => ScanOutcome::Decoded { version, ecc_level, content },
    }
}

/// Scan a frame and keep what its first symbol gives.
fn scan_frame(width: usize, height: usize, pixels: &[u8]) -> (r: ScanOutcome)
    requires
        width > 0,
        height > 0,
        width * height == pixels@.len(),
    ensures
        scan_view(r) == qr_scan(width, height, pixels@),
{
    let syms = scan_symbols(width, height, pixels);
    proof {
        if syms@.len() > 0 {
            assert(syms@.map_values(|s: SymbolRead| symbol_view(s))[0] == symbol_view(syms@[0]));
        }
    }
    first_symbol(syms)
}

/// `v` as a `u8` when it fits.
pub open spec fn small(v: int) -> Option<u8> {
    if 0 <= v <= 255 {
        Some(v as u8)
    } else {
        None
    }
}

/// The decode result for what the scanner found.
pub open spec fn outcome_spec(s: Option<Result<(usize, u16, Seq<char>), bool>>) -> Result<(Seq<char>, Option<u8>, Option<u8>), DecodeError> {
    match s {
        None => Err(DecodeError::NotFound),
        Some(Err(true)) => Err(DecodeError::InvalidUtf8),
        Some(Err(false)) => Err(DecodeError::TooBlurry),
        Some(Ok((v, e, c))) => if encode_utf8(c).len() > MAX_PAYLOAD_BYTES {
            Err(DecodeError::TooLarge)
        } else {
            Ok((c, small(v as int), small(e as int)))
        },
    }
}

pub open spec fn result_view(r: Result<DecodeResult, DecodeError>) -> Result<(Seq<char>, Option<u8>, Option<u8>), DecodeError> {
    match r {
        Ok(d) => Ok((d.payload@, d.version, d.ecc_level)),
        Err(e) => Err(e),
    }
}

/// Turn what the scanner found into the decode result: no symbol, bad
/// UTF-8, unreadable symbol, oversized payload, or the payload with its
/// version and ECC level (each `None` when above 255).
pub fn decode_outcome(scan: ScanOutcome) -> (r: Result<DecodeResult, DecodeError>)
    ensures
        result_view(r) == outcome_spec(scan_view(scan)),
{
    match scan {
        ScanOutcome::NoGrid => Err(DecodeError::NotFound),
        ScanOutcome::NotUtf8 => Err(DecodeError::InvalidUtf8),
        ScanOutcome::Unreadable => Err(DecodeError::TooBlurry),
        ScanOutcome::Decoded { version, ecc_level, content } => {
            let n = content.as_str().as_bytes().len();
            if n > MAX_PAYLOAD_BYTES {
                return Err(DecodeError::TooLarge);
            }
            let v = if version <= 255 { Some(version as u8) } else { None };
            let e = if ecc_level <= 255 { Some(ecc_level as u8) } else { None };
            Ok(DecodeResult { payload: content, version: v, ecc_level: e })
        },
    }
}

/// The decode result for a frame of the given size.
pub open spec fn decode_spec(width: usize, height: usize, pixels: Seq<u8>) -> Result<(Seq<char>, Option<u8>, Option<u8>), DecodeError> {
    if width == 0 || height == 0 {
        Err(DecodeError::InvalidFrame("width and height must be non-zero"))
    } else if width * height > usize::MAX {
        Err(DecodeError::InvalidFrame("width*height overflow"))
    } else if pixels.len() != width * height {
        Err(DecodeError::InvalidFrame("pixels length does not match width*height"))
    } else {
        outcome_spec(qr_scan(width, height, pixels))
    }
}

/// Decode the first QR code in a grayscale (`0` = black, `255` = white) buffer.
pub fn decode_grayscale(width: usize, height: usize, pixels: &[u8]) -> (r: Result<DecodeResult, DecodeError>)
    ensures
        result_view(r) == decode_spec(width, height, pixels@),
{
    if width == 0 || height == 0 {
        return Err(DecodeError::InvalidFrame("width and height must be non-zero"));
    }
    let expected = match width.checked_mul(height) {
        Some(e) => e,
        None => return Err(DecodeError::InvalidFrame("width*height overflow")),
    };
    if pixels.len() != expected {
        return Err(DecodeError::InvalidFrame("pixels length does not match width*height"));
    }
    decode_outcome(scan_frame(width, height, pixels))
}

} // verus!
