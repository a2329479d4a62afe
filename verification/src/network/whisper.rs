//! Whisper upload with pluggable HTTP, retry pacing and progress reporting.
use vstd::prelude::*;
use vstd::utf8::encode_utf8;

use crate::error::{CoreError, CoreResult};
use crate::paths::{lemma_note_paths_distinct, lemma_store_paths_distinct, lemma_wav_not_txt, note_path, note_path_spec, INDEX_FILE, INDEX_TMP};
use crate::storage::index::{first_with_num, lemma_first_with_num, IndexStore, NoteView};
use crate::storage::{update_index_has_text, FileStorage};
use crate::text::owned;
use crate::transcribe::{parse_transcription_response, TranscriptionConfig};
use crate::whisper_parse::{parse_whisper_text, whisper_text_spec};

verus! {

pub const CHUNK_SIZE: usize = 4096;

pub const MAX_RETRIES: u32 = 3;

pub const RETRY_DELAY_MS: u64 = 3000;

pub const REQUEST_TIMEOUT_MS: u64 = 90_000;

/// Minimal HTTP client for transcription upload (host + firmware adapter).
pub trait HttpClient {
    /// The uploads so far, oldest first: the WAV sent and the answer given.
    /// A verified implementation defines it from what it keeps; for one that
    /// keeps the empty default the contract below cannot hold, and it is only
    /// trusted to follow it.
    closed spec fn uploads(&self) -> Seq<(Seq<u8>, CoreResult<String>)> {
        Seq::empty()
    }

    /// Upload one WAV; the answer is the service's response body.
    fn post_multipart_wav(
        &mut self,
        config: &TranscriptionConfig,
        wav_bytes: &[u8],
        filename: &str,
    ) -> (r: CoreResult<String>)
        ensures
            final(self).uploads() == old(self).uploads().push((wav_bytes@, r)),
    ;
}

/// Waits between upload attempts (a thread sleep on the host).
pub trait RetryDelay {
    /// The waits asked for so far, oldest first, in milliseconds. A verified
    /// implementation defines it as the log it keeps (see `MockDelay`); the
    /// empty default only stands in for implementations that are not verified.
    closed spec fn waits(&self) -> Seq<u64> {
        Seq::empty()
    }

    fn delay_ms(&mut self, ms: u64)
        ensures
            final(self).waits() == old(self).waits().push(ms),
    ;
}

/// Receives `(done, total)` as a batch of uploads advances.
pub trait Progress {
    /// The `(done, total)` reports received so far, oldest first. A verified
    /// implementation defines it as the log it keeps (see `MockProgress`); the
    /// empty default only stands in for implementations that are not verified.
    closed spec fn reports(&self) -> Seq<(usize, usize)> {
        Seq::empty()
    }

    fn on_progress(&mut self, done: usize, total: usize)
        ensures
            final(self).reports() == old(self).reports().push((done, total)),
    ;
}

/// `k` waits of `RETRY_DELAY_MS` each.
pub open spec fn retry_waits(k: nat) -> Seq<u64> {
    Seq::new(k, |i: int| RETRY_DELAY_MS)
}

/// The reports of a batch of `total` uploads: `(i, total)` before each, then
/// `(total, total)`.
pub open spec fn batch_reports(total: nat) -> Seq<(usize, usize)> {
    Seq::new(total + 1, |j: int| (j as usize, total as usize))
}

/// The transcript carried by a response body (empty when there is none).
pub open spec fn transcript_spec(body: Seq<char>) -> Seq<char> {
    match whisper_text_spec(encode_utf8(body)) {
        Some(t) => t,
        None => Seq::empty(),
    }
}

/// The transcript text of a response body: the JSON `text` field, or empty.
pub fn transcript_from_body(body: &str) -> (t: String)
    ensures
        t@ == transcript_spec(body@),
{
    match parse_transcription_response(body) {
        Some(t) => t,
        None => match parse_whisper_text(body) {
            Some(t) => t,
            None => String::new(),
        },
    }
}

/// The index with note `num` marked as transcribed (unchanged when absent).
pub open spec fn mark_transcribed(es: Seq<NoteView>, num: i32) -> Seq<NoteView> {
    match first_with_num(es, num) {
        Some(i) => es.update(i, (es[i].0, es[i].1, true)),
        None => es,
    }
}

/// `new` has the rows of `old`, with transcript flags only ever set.
pub open spec fn marks_only(old: Seq<NoteView>, new: Seq<NoteView>) -> bool {
    &&& new.len() == old.len()
    &&& forall|i: int|
        0 <= i < old.len() ==> {
            &&& (#[trigger] new[i]).0 == old[i].0
            &&& new[i].1 == old[i].1
            &&& (old[i].2 ==> new[i].2)
        }
}

proof fn lemma_mark_is_marks_only(es: Seq<NoteView>, num: i32)
    ensures
        marks_only(es, mark_transcribed(es, num)),
{
    lemma_first_with_num(es, num);
}

proof fn lemma_marks_only_trans(a: Seq<NoteView>, b: Seq<NoteView>, c: Seq<NoteView>)
    requires
        marks_only(a, b),
        marks_only(b, c),
    ensures
        marks_only(a, c),
{
    assert forall|i: int| 0 <= i < a.len() implies {
        &&& (#[trigger] c[i]).0 == a[i].0
        &&& c[i].1 == a[i].1
        &&& (a[i].2 ==> c[i].2)
    } by {
        assert(b[i].0 == a[i].0);
    }
}

/// Every note's `.wav` is in `a` exactly when it is in `b`, with the same bytes.
pub open spec fn wavs_kept(a: Map<Seq<char>, Seq<u8>>, b: Map<Seq<char>, Seq<u8>>) -> bool {
    forall|n: i32|
        #![trigger note_path_spec(n, "wav"@)]
        a.contains_key(note_path_spec(n, "wav"@)) == b.contains_key(note_path_spec(n, "wav"@)) && (a.contains_key(
            note_path_spec(n, "wav"@),
        ) ==> a[note_path_spec(n, "wav"@)] == b[note_path_spec(n, "wav"@)])
}

/// One upload of note `num`'s WAV; on a non-empty transcript writes the `.txt`
/// and marks the note transcribed in the index.
#[verifier::spinoff_prover]
#[verifier::rlimit(80)]
fn transcribe_once<S: FileStorage, H: HttpClient>(
    storage: &mut S,
    index: &mut IndexStore,
    config: &TranscriptionConfig,
    note_num: i32,
    http: &mut H,
) -> (r: CoreResult<bool>)
    ensures
        final(index)@ == old(index)@ || final(index)@ == mark_transcribed(old(index)@, note_num),
        r matches Ok(b) && b ==> first_with_num(old(index)@, note_num) is Some && final(index)@
            == mark_transcribed(old(index)@, note_num),
        r matches Ok(b) && !b ==> final(index)@ == old(index)@,
        old(storage).reliable() && old(storage).files().contains_key(note_path_spec(note_num, "wav"@)) ==> {
            &&& final(http).uploads().len() == old(http).uploads().len() + 1
            &&& final(http).uploads().drop_last() == old(http).uploads()
            &&& final(http).uploads().last().0 == old(storage).files()[note_path_spec(note_num, "wav"@)]
        },
        old(storage).reliable() && !old(storage).files().contains_key(note_path_spec(note_num, "wav"@))
            ==> (r matches Err(CoreError::Storage(m)) && m@ == "wav missing"@) && final(http).uploads() == old(
            http,
        ).uploads(),
        final(http).uploads() == old(http).uploads() || (final(http).uploads().len() == old(http).uploads().len() + 1
            && final(http).uploads().drop_last() == old(http).uploads()),
        r == Ok::<bool, CoreError>(true) ==> final(http).uploads().len() > 0 && (final(http).uploads().last().1 matches Ok(
            body,
        ) && transcript_spec(body@).len() > 0 && final(storage).files().contains_key(note_path_spec(note_num, "txt"@))
            && final(storage).files()[note_path_spec(note_num, "txt"@)] == encode_utf8(transcript_spec(body@))),
        old(storage).reliable() && r != Ok::<bool, CoreError>(true) ==> final(index)@ == old(index)@,
        old(storage).reliable() ==> final(storage).files()[note_path_spec(note_num, "wav"@)] == old(storage).files()[note_path_spec(note_num, "wav"@)]
            && final(storage).files().contains_key(note_path_spec(note_num, "wav"@)) == old(storage).files().contains_key(
            note_path_spec(note_num, "wav"@),
        ),
        old(storage).reliable() ==> wavs_kept(old(storage).files(), final(storage).files()),
        final(storage).reliable() == old(storage).reliable(),
{
    proof {
        lemma_note_paths_distinct(note_num);
        lemma_store_paths_distinct();
    }
    let ghost wp = note_path_spec(note_num, "wav"@);
    let ghost tp = note_path_spec(note_num, "txt"@);
    let ghost f0 = storage.files();
    let wav_path = note_path(note_num, "wav");
    let wav = match storage.read_bytes(wav_path.as_str())? {
        Some(w) => w,
        None => return Err(CoreError::Storage(owned("wav missing"))),
    };
    let body = http.post_multipart_wav(config, wav.as_slice(), "note.wav")?;
    let text = transcript_from_body(body.as_str());
    if text.as_str().is_empty() {
        return Ok(false);
    }
    let txt_path = note_path(note_num, "txt");
    storage.write_string(txt_path.as_str(), text.as_str())?;
    let ghost f1 = storage.files();
    assert(f1 == f0.insert(tp, encode_utf8(text@)));
    assert(f1[wp] == f0[wp] && f1.contains_key(wp) == f0.contains_key(wp));
    assert forall|n: i32| #![trigger note_path_spec(n, "wav"@)]
        note_path_spec(n, "wav"@) != tp && note_path_spec(n, "wav"@) != INDEX_FILE@ && note_path_spec(n, "wav"@)
            != INDEX_TMP@ by {
        lemma_wav_not_txt(n, note_num);
        lemma_note_paths_distinct(n);
    }
    let up = update_index_has_text(storage, index, note_num);
    match up {
        Ok(_) => {},
        Err(e) => {
            return Err(e);
        },
    }
    assert(storage.files()[tp] == f1[tp]);
    assert(storage.files()[wp] == f1[wp] && storage.files().contains_key(wp) == f1.contains_key(wp));
    Ok(true)
}

/// Transcribe one note, trying up to `MAX_RETRIES` times with
/// `RETRY_DELAY_MS` between attempts; a failed upload is retried, never
/// reported as an error.
#[verifier::spinoff_prover]
#[verifier::rlimit(60)]
pub fn transcribe_note<S: FileStorage, H: HttpClient, W: RetryDelay>(
    storage: &mut S,
    index: &mut IndexStore,
    config: &TranscriptionConfig,
    note_num: i32,
    http: &mut H,
    delay: &mut W,
) -> (r: CoreResult<bool>)
    ensures
        r is Ok,
        final(index)@ == old(index)@ || final(index)@ == mark_transcribed(old(index)@, note_num),
        r matches Ok(b) && b ==> first_with_num(old(index)@, note_num) is Some && final(index)@
            == mark_transcribed(old(index)@, note_num),
        r == Ok::<bool, CoreError>(false) ==> final(delay).waits() == old(delay).waits() + retry_waits(
            (MAX_RETRIES - 1) as nat,
        ),
        r == Ok::<bool, CoreError>(true) ==> exists|k: nat|
            k < MAX_RETRIES && final(delay).waits() == old(delay).waits() + #[trigger] retry_waits(k),
        r == Ok::<bool, CoreError>(true) ==> final(http).uploads().len() > 0 && (final(http).uploads().last().1 matches Ok(
            body,
        ) && transcript_spec(body@).len() > 0 && final(storage).files().contains_key(note_path_spec(note_num, "txt"@))
            && final(storage).files()[note_path_spec(note_num, "txt"@)] == encode_utf8(transcript_spec(body@))),
        old(storage).reliable() && old(storage).files().contains_key(note_path_spec(note_num, "wav"@)) ==> exists|k: nat|
            1 <= k <= MAX_RETRIES && #[trigger] uploaded_times(
                old(http).uploads(),
                final(http).uploads(),
                old(storage).files()[note_path_spec(note_num, "wav"@)],
                k,
            ) && (r == Ok::<bool, CoreError>(false) ==> k == MAX_RETRIES),
        old(storage).reliable() && !old(storage).files().contains_key(note_path_spec(note_num, "wav"@)) ==> r == Ok::<
            bool,
            CoreError,
        >(false) && final(http).uploads() == old(http).uploads(),
        old(storage).reliable() && r == Ok::<bool, CoreError>(false) ==> final(index)@ == old(index)@,
        old(storage).reliable() ==> wavs_kept(old(storage).files(), final(storage).files()),
        final(storage).reliable() == old(storage).reliable(),
{
    let ghost wp = note_path_spec(note_num, "wav"@);
    let ghost u0 = http.uploads();
    let ghost f0 = storage.files();
    let mut attempt: u32 = 0;
    assert(u0.take(u0.len() as int) =~= u0);
    while attempt < MAX_RETRIES
        invariant
            attempt <= MAX_RETRIES,
            index@ == old(index)@ || index@ == mark_transcribed(old(index)@, note_num),
            delay.waits() == old(delay).waits() + retry_waits(
                if attempt < MAX_RETRIES { attempt as nat } else { (MAX_RETRIES - 1) as nat },
            ),
            wp == note_path_spec(note_num, "wav"@),
            u0 == old(http).uploads(),
            f0 == old(storage).files(),
            storage.reliable() == old(storage).reliable(),
            old(storage).reliable() ==> storage.files()[wp] == f0[wp] && storage.files().contains_key(wp)
                == f0.contains_key(wp),
            old(storage).reliable() ==> index@ == old(index)@,
            old(storage).reliable() && f0.contains_key(wp) ==> uploaded_times(u0, http.uploads(), f0[wp], attempt as nat),
            old(storage).reliable() && !f0.contains_key(wp) ==> http.uploads() == u0,
            old(storage).reliable() ==> wavs_kept(f0, storage.files()),
        decreases MAX_RETRIES - attempt,
    {
        let ghost before = index@;
        let ghost ub = http.uploads();
        match transcribe_once(storage, index, config, note_num, http) {
            Ok(true) => {
                proof {
                    lemma_mark_idempotent(old(index)@, note_num);
                    if old(storage).reliable() && f0.contains_key(wp) {
                        lemma_upload_step(u0, ub, http.uploads(), f0[wp], attempt as nat);
                    }
                }
                return Ok(true);
            },
            _ => {
                proof {
                    lemma_mark_idempotent(old(index)@, note_num);
                    if old(storage).reliable() && f0.contains_key(wp) {
                        lemma_upload_step(u0, ub, http.uploads(), f0[wp], attempt as nat);
                    }
                }
                if attempt + 1 < MAX_RETRIES {
                    delay.delay_ms(RETRY_DELAY_MS);
                    assert(delay.waits() =~= old(delay).waits() + retry_waits((attempt + 1) as nat));
                }
            },
        }
        attempt += 1;
    }
    Ok(false)
}

proof fn lemma_upload_step(
    u0: Seq<(Seq<u8>, CoreResult<String>)>,
    ub: Seq<(Seq<u8>, CoreResult<String>)>,
    ua: Seq<(Seq<u8>, CoreResult<String>)>,
    wav: Seq<u8>,
    k: nat,
)
    requires
        uploaded_times(u0, ub, wav, k),
        ua.len() == ub.len() + 1,
        ua.drop_last() == ub,
        ua.last().0 == wav,
    ensures
        uploaded_times(u0, ua, wav, k + 1),
{
    assert(ua.take(u0.len() as int) =~= ub.take(u0.len() as int));
    assert forall|j: int| u0.len() <= j < ua.len() implies (#[trigger] ua[j]).0 == wav by {
        if j < ub.len() {
            assert(ua[j] == ub[j]);
        }
    }
}

/// `after` is `before` followed by `k` uploads, each of `wav`.
pub open spec fn uploaded_times(
    before: Seq<(Seq<u8>, CoreResult<String>)>,
    after: Seq<(Seq<u8>, CoreResult<String>)>,
    wav: Seq<u8>,
    k: nat,
) -> bool {
    &&& after.len() == before.len() + k
    &&& after.take(before.len() as int) == before
    &&& forall|j: int| before.len() <= j < after.len() ==> (#[trigger] after[j]).0 == wav
}

/// Marking keeps every row's number, so the first row numbered `num` stays
/// where it was, and marking again changes nothing.
proof fn lemma_mark_idempotent(es: Seq<NoteView>, num: i32)
    ensures
        first_with_num(mark_transcribed(es, num), num) == first_with_num(es, num),
        mark_transcribed(mark_transcribed(es, num), num) == mark_transcribed(es, num),
{
    let m = mark_transcribed(es, num);
    lemma_first_with_num(es, num);
    lemma_first_with_num(m, num);
    if first_with_num(es, num) is Some {
        let i = first_with_num(es, num)->0;
        assert(m[i].0 == num);
        assert forall|j: int| 0 <= j < m.len() implies (#[trigger] m[j]).0 == es[j].0 by {}
        let k = first_with_num(m, num)->0;
        assert(k == i) by {
            if k < i {
                assert(es[k].0 == num);
            } else if k > i {
                assert(m[i].0 == num);
            }
        }
        assert(m.update(i, (m[i].0, m[i].1, true)) =~= m);
    } else {
        assert(m == es);
    }
}

/// Numbers of the notes that have no transcript yet, in index order.
pub open spec fn pending_spec(es: Seq<NoteView>) -> Seq<i32>
    decreases es.len(),
{
    if es.len() == 0 {
        Seq::empty()
    } else if es.last().2 {
        pending_spec(es.drop_last())
    } else {
        pending_spec(es.drop_last()).push(es.last().0)
    }
}

/// Notes lacking transcripts.
pub fn pending_transcription(index: &IndexStore) -> (v: Vec<i32>)
    ensures
        v@ == pending_spec(index@),
{
    let mut v: Vec<i32> = Vec::new();
    let n = index.entries.len();
    let mut i: usize = 0;
    while i < n
        invariant
            n == index@.len(),
            n == index.entries@.len(),
            i <= n,
            v@ == pending_spec(index@.take(i as int)),
        decreases n - i,
    {
        assert(index@.take(i + 1).drop_last() =~= index@.take(i as int));
        assert(index@.take(i + 1).last() == index.entries@[i as int]@);
        if !index.entries[i].has_text {
            v.push(index.entries[i].num);
        }
        i += 1;
    }
    assert(index@.take(n as int) =~= index@);
    v
}

/// No two rows share a number.
pub open spec fn nums_distinct(es: Seq<NoteView>) -> bool {
    forall|i: int, j: int| 0 <= i < j < es.len() ==> (#[trigger] es[i]).0 != (#[trigger] es[j]).0
}

/// Rows among the first `n` that were untranscribed in `a` and are transcribed in `b`.
pub open spec fn marked_upto(a: Seq<NoteView>, b: Seq<NoteView>, n: int) -> nat
    decreases n,
{
    if n <= 0 {
        0
    } else {
        marked_upto(a, b, n - 1) + if !a[n - 1].2 && b[n - 1].2 {
            1nat
        } else {
            0nat
        }
    }
}

/// Rows untranscribed in `a` and transcribed in `b`.
pub open spec fn newly_marked(a: Seq<NoteView>, b: Seq<NoteView>) -> nat {
    marked_upto(a, b, a.len() as int)
}

proof fn lemma_marked_none(a: Seq<NoteView>, n: int)
    ensures
        marked_upto(a, a, n) == 0,
    decreases n,
{
    if n > 0 {
        lemma_marked_none(a, n - 1);
    }
}

proof fn lemma_marked_update(a: Seq<NoteView>, b: Seq<NoteView>, f: int, n: int)
    requires
        b.len() == a.len(),
        0 <= f < a.len(),
        0 <= n <= a.len(),
        !a[f].2,
        !b[f].2,
    ensures
        marked_upto(a, b.update(f, (b[f].0, b[f].1, true)), n) == marked_upto(a, b, n) + if f < n {
            1nat
        } else {
            0nat
        },
    decreases n,
{
    if n > 0 {
        lemma_marked_update(a, b, f, n - 1);
    }
}

/// Each pending number comes from an untranscribed row, rows in order; with
/// distinct numbers, the pending numbers are distinct too.
proof fn lemma_pending_rows(es: Seq<NoteView>)
    requires
        nums_distinct(es),
    ensures
        forall|j: int| 0 <= j < pending_spec(es).len() ==> exists|k: int|
            0 <= k < es.len() && es[k].0 == #[trigger] pending_spec(es)[j] && !es[k].2,
        forall|j1: int, j2: int| 0 <= j1 < j2 < pending_spec(es).len() ==> #[trigger] pending_spec(es)[j1]
            != #[trigger] pending_spec(es)[j2],
    decreases es.len(),
{
    if es.len() > 0 {
        let d = es.drop_last();
        assert(nums_distinct(d)) by {
            assert forall|i: int, j: int| 0 <= i < j < d.len() implies (#[trigger] d[i]).0 != (#[trigger] d[j]).0 by {
                assert(d[i] == es[i] && d[j] == es[j]);
            }
        }
        lemma_pending_rows(d);
        let pd = pending_spec(d);
        let p = pending_spec(es);
        assert forall|j: int| 0 <= j < p.len() implies exists|k: int|
            0 <= k < es.len() && es[k].0 == #[trigger] p[j] && !es[k].2 by {
            if j < pd.len() {
                assert(p[j] == pd[j]);
                let k = choose|k: int| 0 <= k < d.len() && d[k].0 == pd[j] && !d[k].2;
                assert(es[k] == d[k]);
            } else {
                assert(p[j] == es[es.len() - 1].0);
            }
        }
        assert forall|j1: int, j2: int| 0 <= j1 < j2 < p.len() implies #[trigger] p[j1] != #[trigger] p[j2] by {
            assert(p[j1] == pd[j1]);
            if j2 < pd.len() {
                assert(p[j2] == pd[j2]);
            } else {
                let k = choose|k: int| 0 <= k < d.len() && d[k].0 == pd[j1] && !d[k].2;
                assert(es[k] == d[k]);
                assert(p[j2] == es[es.len() - 1].0);
            }
        }
    }
}

/// Marking pending note `pend[i]` adds one to the count of newly marked rows.
proof fn lemma_count_step(es0: Seq<NoteView>, before: Seq<NoteView>, after: Seq<NoteView>, pend: Seq<i32>, i: int)
    requires
        nums_distinct(es0),
        0 <= i < pend.len(),
        marks_only(es0, before),
        after == mark_transcribed(before, pend[i]),
        first_with_num(before, pend[i]) is Some,
        forall|k: int| 0 <= k < es0.len() && (#[trigger] before[k]).2 && !es0[k].2 ==> exists|j: int|
            0 <= j < i && pend[j] == es0[k].0,
        forall|j: int| 0 <= j < pend.len() ==> exists|k: int| 0 <= k < es0.len() && es0[k].0 == #[trigger] pend[j] && !es0[k].2,
        forall|j1: int, j2: int| 0 <= j1 < j2 < pend.len() ==> #[trigger] pend[j1] != #[trigger] pend[j2],
    ensures
        marked_upto(es0, after, es0.len() as int) == marked_upto(es0, before, es0.len() as int) + 1,
        forall|k: int| 0 <= k < es0.len() && (#[trigger] after[k]).2 && !es0[k].2 ==> exists|j: int|
            0 <= j < i + 1 && pend[j] == es0[k].0,
{
    let num = pend[i];
    lemma_first_with_num(before, num);
    let f = first_with_num(before, num)->0;
    assert(before[f].0 == es0[f].0);
    let k = choose|k: int| 0 <= k < es0.len() && es0[k].0 == pend[i] && !es0[k].2;
    assert(f == k);
    if before[f].2 {
        let j = choose|j: int| 0 <= j < i && pend[j] == es0[f].0;
        assert(pend[j] != pend[i]);
    }
    lemma_marked_update(es0, before, f, es0.len() as int);
    assert forall|m: int| 0 <= m < es0.len() && (#[trigger] after[m]).2 && !es0[m].2 implies exists|j: int|
        0 <= j < i + 1 && pend[j] == es0[m].0 by {
        if m != f {
            assert(after[m] == before[m]);
        }
    }
}

/// One note's share of the uploads: between one and `MAX_RETRIES` uploads of
/// its `.wav` when `files` holds it, none when it does not.
pub open spec fn note_uploads(
    before: Seq<(Seq<u8>, CoreResult<String>)>,
    after: Seq<(Seq<u8>, CoreResult<String>)>,
    files: Map<Seq<char>, Seq<u8>>,
    num: i32,
) -> bool {
    let wp = note_path_spec(num, "wav"@);
    if files.contains_key(wp) {
        exists|k: nat| 1 <= k <= MAX_RETRIES && #[trigger] uploaded_times(before, after, files[wp], k)
    } else {
        after == before
    }
}

/// `after` is `before` followed by each note's share of uploads, note by note
/// in the order of `nums`.
pub open spec fn uploads_in_order(
    before: Seq<(Seq<u8>, CoreResult<String>)>,
    after: Seq<(Seq<u8>, CoreResult<String>)>,
    files: Map<Seq<char>, Seq<u8>>,
    nums: Seq<i32>,
) -> bool
    decreases nums.len(),
{
    if nums.len() == 0 {
        after == before
    } else {
        exists|mid: Seq<(Seq<u8>, CoreResult<String>)>|
            #[trigger] note_uploads(mid, after, files, nums.last()) && uploads_in_order(
                before,
                mid,
                files,
                nums.drop_last(),
            )
    }
}

/// Transcribe every pending note, reporting `(i, total)` before each and
/// `(total, total)` at the end; returns how many succeeded.
pub fn transcribe_all<S: FileStorage, H: HttpClient, W: RetryDelay, P: Progress>(
    storage: &mut S,
    index: &mut IndexStore,
    config: &TranscriptionConfig,
    http: &mut H,
    delay: &mut W,
    progress: &mut P,
) -> (r: CoreResult<usize>)
    ensures
        r matches Ok(d) && d <= pending_spec(old(index)@).len(),
        marks_only(old(index)@, final(index)@),
        final(progress).reports() == old(progress).reports() + batch_reports(
            pending_spec(old(index)@).len(),
        ),
        old(storage).reliable() && nums_distinct(old(index)@) ==> r == Ok::<usize, CoreError>(
            newly_marked(old(index)@, final(index)@) as usize,
        ),
        nums_distinct(old(index)@) ==> (r matches Ok(d) && d <= newly_marked(old(index)@, final(index)@)),
        old(storage).reliable() ==> uploads_in_order(
            old(http).uploads(),
            final(http).uploads(),
            old(storage).files(),
            pending_spec(old(index)@),
        ),
{
    let ghost es0 = index@;
    let ghost dist = nums_distinct(es0);
    let ghost good = old(storage).reliable() && dist;
    proof {
        if dist {
            lemma_pending_rows(es0);
        }
        lemma_marked_none(es0, es0.len() as int);
    }
    let pending = pending_transcription(index);
    let total = pending.len();
    let mut done: usize = 0;
    let mut i: usize = 0;
    while i < total
        invariant
            total == pending@.len(),
            pending@ == pending_spec(old(index)@),
            i <= total,
            done <= i,
            marks_only(old(index)@, index@),
            progress.reports() == old(progress).reports() + batch_reports(total as nat).take(i as int),
            es0 == old(index)@,
            good == (old(storage).reliable() && nums_distinct(es0)),
            storage.reliable() == old(storage).reliable(),
            old(storage).reliable() ==> wavs_kept(old(storage).files(), storage.files()),
            old(storage).reliable() ==> uploads_in_order(
                old(http).uploads(),
                http.uploads(),
                old(storage).files(),
                pending@.take(i as int),
            ),
            dist == nums_distinct(es0),
            good ==> done == marked_upto(es0, index@, es0.len() as int),
            dist ==> done <= marked_upto(es0, index@, es0.len() as int),
            dist ==> forall|k: int| 0 <= k < es0.len() && (#[trigger] index@[k]).2 && !es0[k].2 ==> exists|j: int|
                0 <= j < i && pending@[j] == es0[k].0,
            dist ==> forall|j: int| 0 <= j < pending@.len() ==> exists|k: int|
                0 <= k < es0.len() && es0[k].0 == #[trigger] pending@[j] && !es0[k].2,
            dist ==> forall|j1: int, j2: int| 0 <= j1 < j2 < pending@.len() ==> #[trigger] pending@[j1]
                != #[trigger] pending@[j2],
        decreases total - i,
    {
        progress.on_progress(i, total);
        assert(progress.reports() =~= old(progress).reports() + batch_reports(total as nat).take(i + 1));
        let ghost before = index@;
        let ghost ub = http.uploads();
        let num = pending[i];
        let ok = transcribe_note(storage, index, config, num, http, delay);
        proof {
            if old(storage).reliable() {
                let f0 = old(storage).files();
                let nums = pending@.take(i + 1);
                assert(nums.drop_last() =~= pending@.take(i as int));
                assert(nums.last() == num);
                assert(note_uploads(ub, http.uploads(), f0, num));
                assert(uploads_in_order(old(http).uploads(), http.uploads(), f0, nums));
            }
            lemma_mark_is_marks_only(before, pending@[i as int]);
            lemma_marks_only_trans(old(index)@, before, index@);
        }
        match ok {
            Ok(b) => {
                if b {
                    proof {
                        if dist {
                            lemma_count_step(es0, before, index@, pending@, i as int);
                        }
                    }
                    done += 1;
                } else {
                    proof {
                        if dist {
                            if index@ != before && first_with_num(before, num) is Some {
                                lemma_count_step(es0, before, index@, pending@, i as int);
                            } else {
                                assert(index@ == before);
                                assert forall|k: int| 0 <= k < es0.len() && (#[trigger] index@[k]).2 && !es0[k].2 implies exists|j: int|
                                    0 <= j < i + 1 && pending@[j] == es0[k].0 by {
                                    assert(index@[k] == before[k]);
                                }
                            }
                        }
                    }
                }
            },
            Err(e) => return Err(e),
        }
        i += 1;
    }
    progress.on_progress(total, total);
    assert(progress.reports() =~= old(progress).reports() + batch_reports(total as nat));
    assert(pending@.take(total as int) =~= pending@);
    Ok(done)
}

} // verus!
