//! 16 kHz mono 16-bit PCM WAV header: building, parsing and rewriting it.
use vstd::prelude::*;

use crate::error::{CoreError, CoreResult};
use crate::text::{dec_digits, owned, push_dec, push_str};

verus! {

pub const SAMPLE_RATE: u32 = 16_000;

pub const CHANNELS: u16 = 1;

pub const BITS_PER_SAMPLE: u16 = 16;

pub const BYTES_PER_SAMPLE: u16 = 2;

pub const HEADER_LEN: usize = 44;

#[derive(Debug, Clone, PartialEq, Eq)]
pub struct WavHeader {
    pub sample_rate: u32,
    pub channels: u16,
    pub bits_per_sample: u16,
    pub data_bytes: u32,
}

impl WavHeader {
    pub fn new_mono_pcm(data_bytes: u32) -> (h: Self)
        ensures
            h == (WavHeader {
                sample_rate: SAMPLE_RATE,
                channels: CHANNELS,
                bits_per_sample: BITS_PER_SAMPLE,
                data_bytes,
            }),
    {
        Self {
            sample_rate: SAMPLE_RATE,
            channels: CHANNELS,
            bits_per_sample: BITS_PER_SAMPLE,
            data_bytes,
        }
    }

    pub fn byte_rate(&self) -> (r: u32)
        requires
            self.sample_rate * self.channels * self.bits_per_sample <= u32::MAX,
        ensures
            r == self.sample_rate * self.channels * self.bits_per_sample / 8,
    {
        let sr = self.sample_rate as u64;
        let ch = self.channels as u64;
        let bps = self.bits_per_sample as u64;
        assert(sr * ch <= 4294967295 * 65535) by (nonlinear_arith)
            requires
                sr <= 4294967295,
                ch <= 65535,
        ;
        let a: u64 = sr * ch;
        assert(a * bps <= u32::MAX) by (nonlinear_arith)
            requires
                a == sr * ch,
                sr * ch * bps <= u32::MAX,
        ;
        let b: u64 = a * bps;
        (b / 8) as u32
    }

    pub fn block_align(&self) -> (a: u16)
        requires
            self.channels * self.bits_per_sample <= u16::MAX,
        ensures
            a == self.channels * self.bits_per_sample / 8,
    {
        self.channels * self.bits_per_sample / 8
    }

    pub fn riff_chunk_size(&self) -> (n: u32)
        requires
            self.data_bytes + 36 <= u32::MAX,
        ensures
            n == self.data_bytes + 36,
    {
        self.data_bytes + 36
    }

    pub fn total_file_bytes(&self) -> (n: u32)
        requires
            self.data_bytes + 44 <= u32::MAX,
        ensures
            n == self.data_bytes + 44,
    {
        HEADER_LEN as u32 + self.data_bytes
    }
}

/// Little-endian bytes of a 16-bit value.
pub open spec fn le16(v: int) -> Seq<u8> {
    seq![(v % 256) as u8, ((v / 256) % 256) as u8]
}

/// Little-endian bytes of a 32-bit value.
pub open spec fn le32(v: int) -> Seq<u8> {
    seq![
        (v % 256) as u8,
        ((v / 256) % 256) as u8,
        ((v / 65536) % 256) as u8,
        ((v / 16777216) % 256) as u8,
    ]
}

pub open spec fn riff() -> Seq<u8> {
    seq![82u8, 73, 70, 70]
}

pub open spec fn wave() -> Seq<u8> {
    seq![87u8, 65, 86, 69]
}

pub open spec fn fmt_tag() -> Seq<u8> {
    seq![102u8, 109, 116, 32]
}

pub open spec fn data_tag() -> Seq<u8> {
    seq![100u8, 97, 116, 97]
}

/// The 44-byte header for `data_bytes` of 16 kHz mono 16-bit PCM.
pub open spec fn wav_header_bytes(data_bytes: int) -> Seq<u8> {
    riff() + le32(data_bytes + 36) + wave() + fmt_tag() + le32(16) + le16(1) + le16(1) + le32(
        16000,
    ) + le32(32000) + le16(2) + le16(16) + data_tag() + le32(data_bytes)
}

fn write_fourcc(buf: &mut [u8; 44], off: &mut usize, tag: [u8; 4])
    requires
        *old(off) + 4 <= 44,
    ensures
        *final(off) == *old(off) + 4,
        final(buf)@ == old(buf)@.take(*old(off) as int) + tag@ + old(buf)@.skip(*old(off) + 4),
{
    let o = *off;
    buf[o] = tag[0];
    buf[o + 1] = tag[1];
    buf[o + 2] = tag[2];
    buf[o + 3] = tag[3];
    *off = o + 4;
    assert(buf@ =~= old(buf)@.take(o as int) + tag@ + old(buf)@.skip(o + 4));
}

fn write_u16_le(buf: &mut [u8; 44], off: &mut usize, v: u16)
    requires
        *old(off) + 2 <= 44,
    ensures
        *final(off) == *old(off) + 2,
        final(buf)@ == old(buf)@.take(*old(off) as int) + le16(v as int) + old(buf)@.skip(
            *old(off) + 2,
        ),
{
    let o = *off;
    buf[o] = (v % 256) as u8;
    buf[o + 1] = ((v / 256) % 256) as u8;
    *off = o + 2;
    assert(buf@ =~= old(buf)@.take(o as int) + le16(v as int) + old(buf)@.skip(o + 2));
}

fn write_u32_le(buf: &mut [u8; 44], off: &mut usize, v: u32)
    requires
        *old(off) + 4 <= 44,
    ensures
        *final(off) == *old(off) + 4,
        final(buf)@ == old(buf)@.take(*old(off) as int) + le32(v as int) + old(buf)@.skip(
            *old(off) + 4,
        ),
{
    let o = *off;
    buf[o] = (v % 256) as u8;
    buf[o + 1] = ((v / 256) % 256) as u8;
    buf[o + 2] = ((v / 65536) % 256) as u8;
    buf[o + 3] = ((v / 16777216) % 256) as u8;
    *off = o + 4;
    assert(buf@ =~= old(buf)@.take(o as int) + le32(v as int) + old(buf)@.skip(o + 4));
}

/// Build a 44-byte little-endian WAV header for mono PCM at 16 kHz.
pub fn build_wav_header(data_bytes: u32) -> (buf: [u8; 44])
    requires
        data_bytes + 36 <= u32::MAX,
    ensures
        buf@ == wav_header_bytes(data_bytes as int),
{
    let h = WavHeader::new_mono_pcm(data_bytes);
    assert(16000 * 1 * 16 <= u32::MAX);
    assert(1 * 16 <= u16::MAX);
    let mut buf = [0u8; 44];
    let mut off: usize = 0;
    let ghost acc: Seq<u8> = Seq::empty();
    write_fourcc(&mut buf, &mut off, [82u8, 73, 70, 70]);
    proof {
        acc = acc + riff();
        assert(buf@.take(off as int) =~= acc);
    }
    write_u32_le(&mut buf, &mut off, h.riff_chunk_size());
    proof {
        acc = acc + le32(data_bytes + 36);
        assert(buf@.take(off as int) =~= acc);
    }
    write_fourcc(&mut buf, &mut off, [87u8, 65, 86, 69]);
    proof {
        acc = acc + wave();
        assert(buf@.take(off as int) =~= acc);
    }
    write_fourcc(&mut buf, &mut off, [102u8, 109, 116, 32]);
    proof {
        acc = acc + fmt_tag();
        assert(buf@.take(off as int) =~= acc);
    }
    write_u32_le(&mut buf, &mut off, 16);
    proof {
        acc = acc + le32(16);
        assert(buf@.take(off as int) =~= acc);
    }
    write_u16_le(&mut buf, &mut off, 1);
    proof {
        acc = acc + le16(1);
        assert(buf@.take(off as int) =~= acc);
    }
    write_u16_le(&mut buf, &mut off, h.channels);
    proof {
        acc = acc + le16(1);
        assert(buf@.take(off as int) =~= acc);
    }
    write_u32_le(&mut buf, &mut off, h.sample_rate);
    proof {
        acc = acc + le32(16000);
        assert(buf@.take(off as int) =~= acc);
    }
    write_u32_le(&mut buf, &mut off, h.byte_rate());
    proof {
        acc = acc + le32(32000);
        assert(buf@.take(off as int) =~= acc);
    }
    write_u16_le(&mut buf, &mut off, h.block_align());
    proof {
        acc = acc + le16(2);
        assert(buf@.take(off as int) =~= acc);
    }
    write_u16_le(&mut buf, &mut off, h.bits_per_sample);
    proof {
        acc = acc + le16(16);
        assert(buf@.take(off as int) =~= acc);
    }
    write_fourcc(&mut buf, &mut off, [100u8, 97, 116, 97]);
    proof {
        acc = acc + data_tag();
        assert(buf@.take(off as int) =~= acc);
    }
    write_u32_le(&mut buf, &mut off, h.data_bytes);
    proof {
        acc = acc + le32(data_bytes as int);
        assert(buf@.take(off as int) =~= acc);
    }
    assert(buf@ =~= buf@.take(44));
    assert(acc =~= wav_header_bytes(data_bytes as int));
    buf
}

/// Little-endian 16-bit value at `pos`.
pub open spec fn u16_at(b: Seq<u8>, pos: int) -> int {
    b[pos] + b[pos + 1] * 256
}

/// Little-endian 32-bit value at `pos`.
pub open spec fn u32_at(b: Seq<u8>, pos: int) -> int {
    b[pos] + b[pos + 1] * 256 + b[pos + 2] * 65536 + b[pos + 3] * 16777216
}

fn read_u16_le(bytes: &[u8], pos: usize) -> (r: CoreResult<u16>)
    ensures
        pos + 2 <= bytes@.len() ==> r == Ok::<u16, CoreError>(u16_at(bytes@, pos as int) as u16),
        pos + 2 > bytes@.len() ==> r is Err,
{
    if pos > bytes.len() || bytes.len() - pos < 2 {
        return Err(CoreError::InvalidWav(owned("truncated u16")));
    }
    Ok((bytes[pos] as u16) + (bytes[pos + 1] as u16) * 256)
}

fn read_u32_le(bytes: &[u8], pos: usize) -> (r: CoreResult<u32>)
    ensures
        pos + 4 <= bytes@.len() ==> r == Ok::<u32, CoreError>(u32_at(bytes@, pos as int) as u32),
        pos + 4 > bytes@.len() ==> r is Err,
{
    if pos > bytes.len() || bytes.len() - pos < 4 {
        return Err(CoreError::InvalidWav(owned("truncated u32")));
    }
    Ok((bytes[pos] as u32) + (bytes[pos + 1] as u32) * 256 + (bytes[pos + 2] as u32) * 65536 + (
    bytes[pos + 3] as u32) * 16777216)
}

/// Which check `parse_wav_header` fails first, if any.
pub open spec fn wav_error_message(b: Seq<u8>) -> Option<Seq<char>> {
    if b.len() < 44 {
        Some("header too short"@)
    } else if b.subrange(0, 4) != riff() || b.subrange(8, 12) != wave() {
        Some("missing RIFF/WAVE"@)
    } else if b.subrange(12, 16) != fmt_tag() {
        Some("missing fmt chunk"@)
    } else if u16_at(b, 20) != 1 {
        Some("unsupported format "@ + dec_digits(u16_at(b, 20) as nat))
    } else if b.subrange(36, 40) != data_tag() {
        Some("missing data chunk"@)
    } else {
        None
    }
}

fn tag_at(bytes: &[u8], pos: usize, tag: [u8; 4]) -> (r: bool)
    requires
        pos + 4 <= bytes@.len(),
    ensures
        r == (bytes@.subrange(pos as int, pos + 4) == tag@),
{
    let r = bytes[pos] == tag[0] && bytes[pos + 1] == tag[1] && bytes[pos + 2] == tag[2]
        && bytes[pos + 3] == tag[3];
    proof {
        if r {
            assert(bytes@.subrange(pos as int, pos + 4) =~= tag@);
        } else {
            if bytes@.subrange(pos as int, pos + 4) == tag@ {
                assert(bytes@.subrange(pos as int, pos + 4)[0] == tag@[0]);
                assert(bytes@.subrange(pos as int, pos + 4)[1] == tag@[1]);
                assert(bytes@.subrange(pos as int, pos + 4)[2] == tag@[2]);
                assert(bytes@.subrange(pos as int, pos + 4)[3] == tag@[3]);
            }
        }
    }
    r
}

fn wav_error(msg: &str) -> (e: CoreError)
    ensures
        e matches CoreError::InvalidWav(m) && m@ == msg@,
{
    CoreError::InvalidWav(owned(msg))
}

/// Parse a 44-byte canonical PCM header: magic tags, PCM format, and the
/// channel, rate, bit-depth and data-size fields.
pub fn parse_wav_header(bytes: &[u8]) -> (r: CoreResult<WavHeader>)
    ensures
        match wav_error_message(bytes@) {
            Some(msg) => r matches Err(CoreError::InvalidWav(m)) && m@ == msg,
            None => r == Ok::<WavHeader, CoreError>(
                WavHeader {
                    sample_rate: u32_at(bytes@, 24) as u32,
                    channels: u16_at(bytes@, 22) as u16,
                    bits_per_sample: u16_at(bytes@, 34) as u16,
                    data_bytes: u32_at(bytes@, 40) as u32,
                },
            ),
        },
{
    if bytes.len() < HEADER_LEN {
        return Err(wav_error("header too short"));
    }
    if !tag_at(bytes, 0, [82u8, 73, 70, 70]) || !tag_at(bytes, 8, [87u8, 65, 86, 69]) {
        assert([82u8, 73, 70, 70]@ =~= riff());
        assert([87u8, 65, 86, 69]@ =~= wave());
        return Err(wav_error("missing RIFF/WAVE"));
    }
    assert([82u8, 73, 70, 70]@ =~= riff());
    assert([87u8, 65, 86, 69]@ =~= wave());
    assert([102u8, 109, 116, 32]@ =~= fmt_tag());
    assert([100u8, 97, 116, 97]@ =~= data_tag());
    if !tag_at(bytes, 12, [102u8, 109, 116, 32]) {
        return Err(wav_error("missing fmt chunk"));
    }
    let audio_format = read_u16_le(bytes, 20)?;
    if audio_format != 1 {
        let mut msg = String::new();
        push_str(&mut msg, "unsupported format ");
        push_dec(&mut msg, audio_format as u64);
        return Err(CoreError::InvalidWav(msg));
    }
    let channels = read_u16_le(bytes, 22)?;
    let sample_rate = read_u32_le(bytes, 24)?;
    let bits_per_sample = read_u16_le(bytes, 34)?;
    if !tag_at(bytes, 36, [100u8, 97, 116, 97]) {
        return Err(wav_error("missing data chunk"));
    }
    let data_bytes = read_u32_le(bytes, 40)?;
    Ok(WavHeader { sample_rate, channels, bits_per_sample, data_bytes })
}

/// Reading back a header this module wrote gives the mono 16 kHz header for the
/// same data size.
pub proof fn lemma_header_roundtrip(data_bytes: u32)
    requires
        data_bytes + 36 <= u32::MAX,
    ensures
        wav_error_message(wav_header_bytes(data_bytes as int)) is None,
        u32_at(wav_header_bytes(data_bytes as int), 24) == SAMPLE_RATE,
        u16_at(wav_header_bytes(data_bytes as int), 22) == CHANNELS,
        u16_at(wav_header_bytes(data_bytes as int), 34) == BITS_PER_SAMPLE,
        u32_at(wav_header_bytes(data_bytes as int), 40) == data_bytes,
{
    let b = wav_header_bytes(data_bytes as int);
    assert(b.len() == 44);
    assert(b.subrange(0, 4) =~= riff());
    assert(b.subrange(8, 12) =~= wave());
    assert(b.subrange(12, 16) =~= fmt_tag());
    assert(b.subrange(36, 40) =~= data_tag());
    let d = data_bytes as int;
    assert(b[40] == (d % 256) as u8);
    assert(b[41] == ((d / 256) % 256) as u8);
    assert(b[42] == ((d / 65536) % 256) as u8);
    assert(b[43] == ((d / 16777216) % 256) as u8);
    assert(u32_at(b, 40) == d) by (nonlinear_arith)
        requires
            0 <= d < 4294967296,
            u32_at(b, 40) == (d % 256) + ((d / 256) % 256) * 256 + ((d / 65536) % 256) * 65536 + ((d
                / 16777216) % 256) * 16777216,
    ;
}

/// In every header this module writes, the byte-rate field equals sample
/// rate × channels × bits per sample / 8 and the block-align field equals
/// channels × bits per sample / 8, all read back from the bytes; the RIFF size
/// is the data size plus the 36 header bytes after it.
pub proof fn lemma_header_rates_agree(data_bytes: u32)
    requires
        data_bytes + 36 <= u32::MAX,
    ensures
        ({
            let b = wav_header_bytes(data_bytes as int);
            &&& u32_at(b, 28) == u32_at(b, 24) * u16_at(b, 22) * u16_at(b, 34) / 8
            &&& u16_at(b, 32) == u16_at(b, 22) * u16_at(b, 34) / 8
            &&& u32_at(b, 4) == u32_at(b, 40) + 36
        }),
{
    lemma_header_roundtrip(data_bytes);
    lemma_header_rate_fields(data_bytes as int);
    lemma_header_riff_size(data_bytes);
    let b = wav_header_bytes(data_bytes as int);
    assert(u32_at(b, 24) * u16_at(b, 22) * u16_at(b, 34) == 256000) by (nonlinear_arith)
        requires
            u32_at(b, 24) == 16000,
            u16_at(b, 22) == 1,
            u16_at(b, 34) == 16,
    ;
}

proof fn lemma_header_rate_fields(d: int)
    ensures
        u32_at(wav_header_bytes(d), 28) == 32000,
        u16_at(wav_header_bytes(d), 32) == 2,
{
    let b = wav_header_bytes(d);
    let pre = riff() + le32(d + 36) + wave() + fmt_tag() + le32(16) + le16(1) + le16(1) + le32(16000);
    assert(pre.len() == 28);
    assert(b[28] == 0 && b[29] == 125 && b[30] == 0 && b[31] == 0);
    assert(b[32] == 2 && b[33] == 0);
}

proof fn lemma_header_riff_size(data_bytes: u32)
    requires
        data_bytes + 36 <= u32::MAX,
    ensures
        u32_at(wav_header_bytes(data_bytes as int), 4) == data_bytes + 36,
{
    let b = wav_header_bytes(data_bytes as int);
    let d = data_bytes as int + 36;
    assert(b[4] == (d % 256) as u8);
    assert(b[5] == ((d / 256) % 256) as u8);
    assert(b[6] == ((d / 65536) % 256) as u8);
    assert(b[7] == ((d / 16777216) % 256) as u8);
    assert(u32_at(b, 4) == d) by (nonlinear_arith)
        requires
            0 <= d < 4294967296,
            u32_at(b, 4) == (d % 256) + ((d / 256) % 256) * 256 + ((d / 65536) % 256) * 65536 + ((d
                / 16777216) % 256) * 16777216,
    ;
}

/// What `parse_wav_header` gives back for a header `build_wav_header` wrote.
pub proof fn lemma_build_then_parse(data_bytes: u32)
    requires
        data_bytes + 36 <= u32::MAX,
    ensures
        wav_error_message(wav_header_bytes(data_bytes as int)) is None,
        (WavHeader {
            sample_rate: u32_at(wav_header_bytes(data_bytes as int), 24) as u32,
            channels: u16_at(wav_header_bytes(data_bytes as int), 22) as u16,
            bits_per_sample: u16_at(wav_header_bytes(data_bytes as int), 34) as u16,
            data_bytes: u32_at(wav_header_bytes(data_bytes as int), 40) as u32,
        }) == WavHeader::spec_new_mono_pcm(data_bytes),
{
    lemma_header_roundtrip(data_bytes);
}

impl WavHeader {
    /// The mono 16 kHz header for `data_bytes`.
    pub open spec fn spec_new_mono_pcm(data_bytes: u32) -> WavHeader {
        WavHeader {
            sample_rate: SAMPLE_RATE,
            channels: CHANNELS,
            bits_per_sample: BITS_PER_SAMPLE,
            data_bytes,
        }
    }
}

} // verus!
