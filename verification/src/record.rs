//! WAV recording flow: stream PCM into a note's WAV and fix its header on stop.
use vstd::prelude::*;

use crate::error::{CoreError, CoreResult};
use crate::io::Audio;
use crate::paths::{note_path, note_path_spec};
use crate::storage::index::{clean_tag_field, index_text, tag_cut_ok, IndexStore};
use crate::storage::meta::with_meta;
use crate::storage::{after_atomic_write, text_file_ok};
use crate::paths::{INDEX_FILE, INDEX_TMP};
use vstd::utf8::encode_utf8;
use crate::storage::{add_to_index, write_note_meta, FileStorage};
use crate::text::owned;
use crate::wav::{build_wav_header, lemma_header_roundtrip, u16_at, u32_at, wav_error_message, wav_header_bytes, HEADER_LEN, SAMPLE_RATE};

verus! {

pub const MIN_MONO_BYTES: usize = 1000;

pub const MIN_RECORD_MS: u64 = 500;

/// Result of a completed recording attempt.
#[derive(Debug, Clone, PartialEq, Eq)]
pub enum RecordOutcome {
    Success { num: i32, mono_bytes: usize },
    TooShort,
    WriteFailed(String),
}

/// Stream PCM from audio into a WAV on storage; rewrite header on stop.
pub struct RecordSession {
    pub num: i32,
    pub path: String,
    pub mono_bytes: usize,
    pub started_ms: u64,
    /// Between `begin` and `stop`.
    pub active: bool,
}

/// `a - b`, or 0 when `b` is larger.
pub open spec fn sat_sub_u64(a: u64, b: u64) -> u64 {
    if a >= b {
        (a - b) as u64
    } else {
        0
    }
}

impl RecordSession {
    /// The session is between `begin` and `stop`.
    pub open spec fn recording(&self) -> bool {
        self.active
    }

    /// `stop` at `now_ms` keeps the clip and writes its final header.
    pub open spec fn keeps_clip(&self, now_ms: u64) -> bool {
        &&& self.recording()
        &&& sat_sub_u64(now_ms, self.started_ms) >= MIN_RECORD_MS
        &&& self.mono_bytes > MIN_MONO_BYTES
    }

    pub fn start(num: i32) -> (s: Self)
        ensures
            s.num == num,
            s.path@ == note_path_spec(num, "wav"@),
            s.mono_bytes == 0,
            s.started_ms == 0,
            !s.recording(),
    {
        RecordSession { num, path: note_path(num, "wav"), mono_bytes: 0, started_ms: 0, active: false }
    }

    /// Start recording: mute, start the recorder and write a placeholder header.
    pub fn begin<A: Audio, S: FileStorage>(&mut self, audio: &mut A, storage: &mut S, started_ms: u64) -> (r:
        CoreResult<()>)
        ensures
            final(self).recording(),
            final(self).started_ms == started_ms,
            final(self).mono_bytes == 0,
            final(self).num == old(self).num,
            final(self).path@ == old(self).path@,
            r is Ok ==> final(storage).files() == old(storage).files().insert(
                old(self).path@,
                wav_header_bytes(0),
            ),
            !final(audio).recorder_on() ==> r is Err && final(storage).files() == old(storage).files(),
            final(audio).volume_level() == 0,
            r is Ok ==> final(audio).recorder_on(),
            final(storage).reliable() == old(storage).reliable(),
    {
        self.started_ms = started_ms;
        self.active = true;
        self.mono_bytes = 0;
        audio.set_volume(0);
        audio.start_record()?;
        let placeholder = build_wav_header(0);
        storage.write_bytes(self.path.as_str(), &placeholder)?;
        Ok(())
    }

    /// Move one chunk of at most 512 bytes from the recorder to the file;
    /// `mono_bytes` grows by what the recorder handed out.
    pub fn pump<A: Audio, S: FileStorage>(&mut self, audio: &mut A, storage: &mut S) -> (r: CoreResult<()>)
        requires
            old(self).mono_bytes + 512 <= usize::MAX,
        ensures
            final(self).num == old(self).num,
            final(self).path@ == old(self).path@,
            final(self).started_ms == old(self).started_ms,
            final(self).recording() == old(self).recording(),
            !old(self).recording() ==> r is Ok && final(self).mono_bytes == old(self).mono_bytes,
            old(self).mono_bytes <= final(self).mono_bytes <= old(self).mono_bytes + 512,
            final(audio).captured().len() == old(audio).captured().len() + (final(self).mono_bytes
                - old(self).mono_bytes),
            r is Ok ==> final(storage).files() == if final(self).mono_bytes == old(self).mono_bytes {
                old(storage).files()
            } else {
                old(storage).files().insert(
                    old(self).path@,
                    with_pcm(stored_or_empty(old(storage).files(), old(self).path@), final(audio).captured().skip(
                        old(audio).captured().len() as int,
                    )),
                )
            },
            final(storage).reliable() == old(storage).reliable(),
    {
        if !self.active {
            return Ok(());
        }
        let mut chunk: Vec<u8> = Vec::new();
        let mut k: usize = 0;
        while k < 512
            invariant
                k <= 512,
                chunk@.len() == k,
            decreases 512 - k,
        {
            chunk.push(0u8);
            k += 1;
        }
        let n = audio.read_record_chunk(chunk.as_mut_slice())?;
        if n == 0 {
            return Ok(());
        }
        self.mono_bytes += n;
        let pcm = take_bytes(&chunk, n);
        assert(audio.captured().skip(old(audio).captured().len() as int) =~= pcm@);
        append_pcm(storage, self.path.as_str(), &pcm)?;
        Ok(())
    }

    /// Stop recording. A clip shorter than `MIN_RECORD_MS` or with at most
    /// `MIN_MONO_BYTES` bytes is deleted; a kept clip gets its final header.
    #[verifier::spinoff_prover]
    #[verifier::rlimit(60)]
    pub fn stop<A: Audio, S: FileStorage>(&mut self, audio: &mut A, storage: &mut S, now_ms: u64) -> (r:
        RecordOutcome)
        requires
            old(self).keeps_clip(now_ms) ==> old(self).mono_bytes as u32 + 36 <= u32::MAX,
        ensures
            !final(self).recording(),
            final(self).num == old(self).num,
            final(self).path@ == old(self).path@,
            final(self).mono_bytes == old(self).mono_bytes,
            final(self).started_ms == old(self).started_ms,
            !old(self).keeps_clip(now_ms) ==> r == RecordOutcome::TooShort,
            old(self).keeps_clip(now_ms) ==> r == (RecordOutcome::Success {
                num: old(self).num,
                mono_bytes: old(self).mono_bytes,
            }) || (r matches RecordOutcome::WriteFailed(m) && m@ == "header rewrite"@),
            old(self).keeps_clip(now_ms) && old(storage).reliable() && old(storage).files().contains_key(old(self).path@)
                && old(storage).files()[old(self).path@].len() >= HEADER_LEN ==> r == (RecordOutcome::Success {
                num: old(self).num,
                mono_bytes: old(self).mono_bytes,
            }),
            r is Success ==> final(storage).files() == old(storage).files().insert(
                old(self).path@,
                with_header(old(storage).files()[old(self).path@], wav_header_bytes((old(self).mono_bytes as u32) as int)),
            ),
            old(self).recording() && !old(self).keeps_clip(now_ms) && old(storage).reliable() ==> final(storage).files()
                == old(storage).files().remove(old(self).path@),
            !old(self).recording() ==> final(storage).files() == old(storage).files(),
            old(self).recording() ==> !final(audio).recorder_on() && final(audio).volume_level() == 85,
            !old(self).recording() ==> *final(audio) == *old(audio),
            final(storage).reliable() == old(storage).reliable(),
    {
        if !self.active {
            return RecordOutcome::TooShort;
        }
        self.active = false;
        audio.stop_record();
        audio.set_volume(85);
        let elapsed = if now_ms >= self.started_ms { now_ms - self.started_ms } else { 0 };
        if elapsed < MIN_RECORD_MS || self.mono_bytes <= MIN_MONO_BYTES {
            let _ = storage.remove(self.path.as_str());
            return RecordOutcome::TooShort;
        }
        let header = build_wav_header(self.mono_bytes as u32);
        match rewrite_header(storage, self.path.as_str(), &header) {
            Ok(()) => {},
            Err(_) => return RecordOutcome::WriteFailed(owned("header rewrite")),
        }
        RecordOutcome::Success { num: self.num, mono_bytes: self.mono_bytes }
    }
}

fn take_bytes(v: &Vec<u8>, n: usize) -> (out: Vec<u8>)
    requires
        n <= v@.len(),
    ensures
        out@ == v@.take(n as int),
{
    let mut out: Vec<u8> = Vec::new();
    let mut i: usize = 0;
    while i < n
        invariant
            i <= n <= v@.len(),
            out@ == v@.take(i as int),
        decreases n - i,
    {
        out.push(v[i]);
        i += 1;
        assert(out@ =~= v@.take(i as int));
    }
    out
}

/// The file after appending `pcm`: padded with zeros to a whole header first.
pub open spec fn with_pcm(existing: Seq<u8>, pcm: Seq<u8>) -> Seq<u8> {
    let padded = if existing.len() < HEADER_LEN {
        existing + Seq::new((HEADER_LEN - existing.len()) as nat, |i: int| 0u8)
    } else {
        existing
    };
    padded + pcm
}

/// `existing` padded to a whole header, then `pcm` appended.
pub fn append_to_file(existing: Vec<u8>, pcm: &[u8]) -> (out: Vec<u8>)
    ensures
        out@ == with_pcm(existing@, pcm@),
{
    let mut out = existing;
    let ghost start = out@;
    while out.len() < HEADER_LEN
        invariant
            start.len() < HEADER_LEN ==> out@ == start + Seq::new((out@.len() - start.len()) as nat, |i: int| 0u8),
            start.len() >= HEADER_LEN ==> out@ == start,
            out@.len() >= start.len(),
            out@.len() <= HEADER_LEN || out@ == start,
        decreases HEADER_LEN - out@.len(),
    {
        let ghost before = out@;
        out.push(0u8);
        assert(out@ =~= start + Seq::new((out@.len() - start.len()) as nat, |i: int| 0u8));
    }
    let ghost padded = out@;
    assert(start.len() < HEADER_LEN ==> padded =~= start + Seq::new((HEADER_LEN - start.len()) as nat, |i: int| 0u8));
    let mut i: usize = 0;
    while i < pcm.len()
        invariant
            i <= pcm@.len(),
            out@ == padded + pcm@.take(i as int),
        decreases pcm@.len() - i,
    {
        out.push(pcm[i]);
        i += 1;
        assert(out@ =~= padded + pcm@.take(i as int));
    }
    assert(pcm@.take(pcm@.len() as int) =~= pcm@);
    out
}

/// The file's bytes, or none when it is missing.
pub open spec fn stored_or_empty(files: Map<Seq<char>, Seq<u8>>, path: Seq<char>) -> Seq<u8> {
    if files.contains_key(path) {
        files[path]
    } else {
        Seq::empty()
    }
}

fn append_pcm<S: FileStorage>(storage: &mut S, path: &str, pcm: &[u8]) -> (r: CoreResult<()>)
    ensures
        r is Ok ==> final(storage).files() == old(storage).files().insert(
            path@,
            with_pcm(stored_or_empty(old(storage).files(), path@), pcm@),
        ),
        old(storage).reliable() ==> r is Ok,
        final(storage).reliable() == old(storage).reliable(),
{
    let existing = match storage.read_bytes(path)? {
        Some(b) => b,
        None => Vec::new(),
    };
    let out = append_to_file(existing, pcm);
    storage.write_bytes(path, out.as_slice())
}

/// The file with its first `HEADER_LEN` bytes replaced by `header`.
pub open spec fn with_header(file: Seq<u8>, header: Seq<u8>) -> Seq<u8> {
    header + file.skip(HEADER_LEN as int)
}

/// Replace the first `HEADER_LEN` bytes of `file`; a shorter file is refused.
pub fn replace_header(file: Vec<u8>, header: &[u8; 44]) -> (r: CoreResult<Vec<u8>>)
    ensures
        file@.len() < HEADER_LEN ==> (r matches Err(CoreError::InvalidWav(m)) && m@ == "file too short"@),
        file@.len() >= HEADER_LEN ==> (r matches Ok(v) && v@ == with_header(file@, header@)),
{
    if file.len() < HEADER_LEN {
        return Err(CoreError::InvalidWav(owned("file too short")));
    }
    let mut file = file;
    let ghost f0 = file@;
    let mut k: usize = 0;
    while k < HEADER_LEN
        invariant
            k <= HEADER_LEN,
            f0.len() >= HEADER_LEN,
            file@.len() == f0.len(),
            file@ == header@.take(k as int) + f0.skip(k as int),
        decreases HEADER_LEN - k,
    {
        file.set(k, header[k]);
        k += 1;
        assert(file@ =~= header@.take(k as int) + f0.skip(k as int));
    }
    assert(header@.take(44) =~= header@);
    Ok(file)
}

fn rewrite_header<S: FileStorage>(storage: &mut S, path: &str, header: &[u8; 44]) -> (r: CoreResult<()>)
    ensures
        r is Ok ==> old(storage).files().contains_key(path@) && old(storage).files()[path@].len() >= HEADER_LEN
            && final(storage).files() == old(storage).files().insert(
            path@,
            with_header(old(storage).files()[path@], header@),
        ),
        old(storage).reliable() && !old(storage).files().contains_key(path@) ==> (r matches Err(CoreError::Storage(m))
            && m@ == "wav missing"@),
        old(storage).reliable() && old(storage).files().contains_key(path@) && old(storage).files()[path@].len()
            < HEADER_LEN ==> (r matches Err(CoreError::InvalidWav(m)) && m@ == "file too short"@),
        old(storage).reliable() && old(storage).files().contains_key(path@) && old(storage).files()[path@].len()
            >= HEADER_LEN ==> r is Ok,
        r is Err ==> final(storage).files() == old(storage).files() || !old(storage).reliable(),
        final(storage).reliable() == old(storage).reliable(),
{
    let file = match storage.read_bytes(path)? {
        Some(f) => f,
        None => return Err(CoreError::Storage(owned("wav missing"))),
    };
    let out = replace_header(file, header)?;
    storage.write_bytes(path, out.as_slice())
}

/// Finalize a new note: meta with its UTC timestamp, then an index row.
pub fn finalize_new_note<S: FileStorage>(
    storage: &mut S,
    index: &mut IndexStore,
    num: i32,
    tag: &str,
    created_utc: &str,
) -> (r: CoreResult<()>)
    requires
        tag_cut_ok(tag@),
    ensures
        r is Ok ==> (clean_tag_field(tag@) matches Some(t) && final(index)@ == old(index)@.push(
            (num, t, false),
        )),
        final(index)@ == old(index)@ || (clean_tag_field(tag@) matches Some(t) && final(index)@
            == old(index)@.push((num, t, false))),
        r is Ok ==> final(storage).files() == after_atomic_write(
            with_meta(old(storage).files(), old(index)@, num, Some(tag), Some(created_utc)),
            INDEX_FILE@,
            INDEX_TMP@,
            encode_utf8(index_text(final(index)@)),
        ),
        old(storage).reliable() && text_file_ok(old(storage).files(), note_path_spec(num, "meta"@))
            && clean_tag_field(tag@) is Some ==> r is Ok,
        final(storage).reliable() == old(storage).reliable(),
{
    write_note_meta(storage, index, num, Some(tag), Some(created_utc))?;
    add_to_index(storage, index, num, tag, false)
}

/// Duration in milliseconds from mono byte count @ 16 kHz 16-bit.
pub fn duration_ms_from_mono_bytes(bytes: usize) -> (ms: u64)
    requires
        bytes * 1000 <= u64::MAX,
    ensures
        ms == bytes * 1000 / 32000,
{
    (bytes as u64 * 1000) / (SAMPLE_RATE as u64 * 2)
}

/// The file after the placeholder header and then each chunk appended in turn.
pub open spec fn recorded_file(chunks: Seq<Seq<u8>>) -> Seq<u8>
    decreases chunks.len(),
{
    if chunks.len() == 0 {
        wav_header_bytes(0)
    } else {
        with_pcm(recorded_file(chunks.drop_last()), chunks.last())
    }
}

/// All the chunks, one after another.
pub open spec fn all_pcm(chunks: Seq<Seq<u8>>) -> Seq<u8>
    decreases chunks.len(),
{
    if chunks.len() == 0 {
        seq![]
    } else {
        all_pcm(chunks.drop_last()) + chunks.last()
    }
}

proof fn lemma_recorded_file(chunks: Seq<Seq<u8>>)
    ensures
        recorded_file(chunks) == wav_header_bytes(0) + all_pcm(chunks),
    decreases chunks.len(),
{
    if chunks.len() == 0 {
        assert(wav_header_bytes(0) + all_pcm(chunks) =~= wav_header_bytes(0));
    } else {
        lemma_recorded_file(chunks.drop_last());
        assert(wav_header_bytes(0).len() == HEADER_LEN);
        assert(recorded_file(chunks) =~= wav_header_bytes(0) + all_pcm(chunks));
    }
}

/// A whole recording session: `begin` writes the placeholder header, each
/// `pump` appends a chunk, and `stop` rewrites the header for the bytes
/// recorded. The file is then a valid header whose data size is those bytes,
/// followed by the recorded PCM.
pub proof fn lemma_session_file(chunks: Seq<Seq<u8>>, m: u32)
    requires
        all_pcm(chunks).len() == m,
        m + 36 <= u32::MAX,
    ensures
        ({
            let f = with_header(recorded_file(chunks), wav_header_bytes(m as int));
            &&& f == wav_header_bytes(m as int) + all_pcm(chunks)
            &&& wav_error_message(f) is None
            &&& u32_at(f, 40) == m
        }),
{
    lemma_recorded_file(chunks);
    lemma_header_roundtrip(m);
    let h = wav_header_bytes(m as int);
    let f = with_header(recorded_file(chunks), h);
    assert((wav_header_bytes(0) + all_pcm(chunks)).skip(HEADER_LEN as int) =~= all_pcm(chunks));
    assert(f =~= h + all_pcm(chunks));
    assert(f.subrange(0, 4) =~= h.subrange(0, 4));
    assert(f.subrange(8, 12) =~= h.subrange(8, 12));
    assert(f.subrange(12, 16) =~= h.subrange(12, 16));
    assert(f.subrange(36, 40) =~= h.subrange(36, 40));
    assert(u16_at(f, 20) == u16_at(h, 20));
    assert(u32_at(f, 40) == u32_at(h, 40));
}

} // verus!
