//! `index.csv` rows (`num,tag,hasText`): the note index and its file.
use vstd::prelude::*;

use crate::error::{CoreError, CoreResult};
use crate::paths::{lemma_store_paths_distinct, note_path, note_path_spec, INDEX_FILE, INDEX_TMP, MAX_TAG_LEN};
use vstd::utf8::{decode_utf8, encode_utf8, valid_utf8};
use crate::text::{
    all_digits, chars_eq, chars_of, dec_digits, digits_value, find_char, fmt_int,
    has_byte_boundary, is_ascii_digit, is_ws, line_pieces, lines_of, owned, parse_i32,
    parse_i32_spec, parse_int, push_char, push_int, push_str, slice_vec, string_from_chars,
    trim, trim_chars, trim_end, trim_start, truncate_bytes, truncate_chars, utf8_len, vec_views,
    first_index, zeros, digit_char, pieces_fold,
};

use super::{after_atomic_write, file_text, text_file_ok, FileStorage};

verus! {

/// One row in `index.csv`: `num,tag,hasText`.
#[derive(Debug, Clone, PartialEq, Eq)]
pub struct NoteEntry {
    pub num: i32,
    pub tag: String,
    pub has_text: bool,
}

/// A row as plain values.
pub type NoteView = (i32, Seq<char>, bool);

impl View for NoteEntry {
    type V = NoteView;

    open spec fn view(&self) -> NoteView {
        (self.num, self.tag@, self.has_text)
    }
}

/// In-memory index with SD persistence.
#[derive(Debug)]
pub struct IndexStore {
    pub entries: Vec<NoteEntry>,
}

pub open spec fn entry_views(es: Seq<NoteEntry>) -> Seq<NoteView> {
    es.map_values(|e: NoteEntry| e@)
}

impl View for IndexStore {
    type V = Seq<NoteView>;

    open spec fn view(&self) -> Seq<NoteView> {
        entry_views(self.entries@)
    }
}

/// Position of the first row numbered `num`.
pub open spec fn first_with_num(es: Seq<NoteView>, num: i32) -> Option<int> {
    if exists|i: int| 0 <= i < es.len() && es[i].0 == num {
        Some(choose|i: int| 0 <= i < es.len() && es[i].0 == num && forall|j: int| 0 <= j < i ==> es[j].0 != num)
    } else {
        None
    }
}

/// What `first_with_num` picks: the first row numbered `num`, if any.
pub proof fn lemma_first_with_num(es: Seq<NoteView>, num: i32)
    ensures
        match first_with_num(es, num) {
            Some(i) => 0 <= i < es.len() && es[i].0 == num && forall|j: int| 0 <= j < i ==> es[j].0 != num,
            None => forall|j: int| 0 <= j < es.len() ==> es[j].0 != num,
        },
{
    if exists|i: int| 0 <= i < es.len() && es[i].0 == num {
        let w = choose|i: int| 0 <= i < es.len() && es[i].0 == num;
        lemma_first_exists(es, num, w);
    }
}

proof fn lemma_first_exists(es: Seq<NoteView>, num: i32, w: int)
    requires
        0 <= w < es.len(),
        es[w].0 == num,
    ensures
        exists|i: int| 0 <= i < es.len() && es[i].0 == num && forall|j: int| 0 <= j < i ==> es[j].0 != num,
    decreases w,
{
    if exists|j: int| 0 <= j < w && es[j].0 == num {
        let j = choose|j: int| 0 <= j < w && es[j].0 == num;
        lemma_first_exists(es, num, j);
    }
}

/// `es` with every row tagged `old_tag` retagged `new_tag`.
pub open spec fn retag(es: Seq<NoteView>, old_tag: Seq<char>, new_tag: Seq<char>) -> Seq<NoteView> {
    es.map_values(|e: NoteView| if e.1 == old_tag { (e.0, new_tag, e.2) } else { e })
}

impl IndexStore {
    pub fn new() -> (s: Self)
        ensures
            s@ == Seq::<NoteView>::empty(),
    {
        Self { entries: Vec::new() }
    }

    pub fn entries(&self) -> (e: &[NoteEntry])
        ensures
            e@ == self.entries@,
    {
        self.entries.as_slice()
    }

    pub fn len(&self) -> (n: usize)
        ensures
            n == self@.len(),
    {
        self.entries.len()
    }

    pub fn is_empty(&self) -> (r: bool)
        ensures
            r == (self@.len() == 0),
    {
        self.entries.len() == 0
    }

    pub fn clear(&mut self)
        ensures
            final(self)@ == Seq::<NoteView>::empty(),
    {
        self.entries.clear();
        assert(final(self)@ =~= Seq::<NoteView>::empty());
    }

    /// Index of the first row numbered `num`.
    pub fn position(&self, num: i32) -> (r: Option<usize>)
        ensures
            match r {
                Some(i) => first_with_num(self@, num) == Some(i as int) && i < self@.len()
                    && self@[i as int].0 == num,
                None => first_with_num(self@, num) is None,
            },
    {
        let mut i: usize = 0;
        while i < self.entries.len()
            invariant
                i <= self@.len(),
                forall|j: int| 0 <= j < i ==> self@[j].0 != num,
            decreases self@.len() - i,
        {
            if self.entries[i].num == num {
                proof {
                    assert(self@[i as int].0 == num);
                    let c = choose|k: int| 0 <= k < self@.len() && self@[k].0 == num && forall|j: int| 0 <= j < k ==> self@[j].0 != num;
                    assert(c == i) by {
                        if c < i {
                        } else if c > i {
                        }
                    }
                }
                return Some(i);
            }
            i += 1;
        }
        None
    }

    pub fn find(&self, num: i32) -> (r: Option<&NoteEntry>)
        ensures
            match first_with_num(self@, num) {
                Some(i) => r matches Some(e) && e@ == self@[i],
                None => r is None,
            },
    {
        match self.position(num) {
            Some(i) => Some(&self.entries[i]),
            None => None,
        }
    }

    pub fn find_mut(&mut self, num: i32) -> (r: Option<&mut NoteEntry>)
        ensures
            match first_with_num(old(self)@, num) {
                Some(i) => r matches Some(e) && (*e)@ == old(self)@[i] && final(self)@ == old(
                    self,
                )@.update(i, (*final(e))@),
                None => r is None && final(self)@ == old(self)@,
            },
    {
        match self.position(num) {
            Some(i) => {
                let e = &mut self.entries[i];
                Some(e)
            },
            None => None,
        }
    }

    pub fn replace_tag(&mut self, old_tag: &str, new_tag: &str)
        ensures
            final(self)@ == retag(old(self)@, old_tag@, new_tag@),
    {
        let n = self.entries.len();
        let mut i: usize = 0;
        while i < n
            invariant
                n == self.entries@.len(),
                n == old(self).entries@.len(),
                i <= n,
                forall|k: int|
                    0 <= k < i ==> #[trigger] self.entries@[k]@ == retag(
                        old(self)@,
                        old_tag@,
                        new_tag@,
                    )[k],
                forall|k: int| i <= k < n ==> #[trigger] self.entries@[k] == old(self).entries@[k],
            decreases n - i,
        {
            assert(old(self)@[i as int] == old(self).entries@[i as int]@);
            if crate::text::str_eq(self.entries[i].tag.as_str(), old_tag) {
                let e = NoteEntry {
                    num: self.entries[i].num,
                    tag: owned(new_tag),
                    has_text: self.entries[i].has_text,
                };
                self.entries.set(i, e);
            }
            i += 1;
        }
        assert(self@ =~= retag(old(self)@, old_tag@, new_tag@));
    }

}

impl Default for IndexStore {
    fn default() -> (s: Self)
        ensures
            s@ == Seq::<NoteView>::empty(),
    {
        Self::new()
    }
}

/// `num,tag,1` or `num,tag,0`.
pub open spec fn index_line(e: NoteView) -> Seq<char> {
    fmt_int(e.0 as int, 0) + seq![','] + e.1 + seq![','] + (if e.2 {
        seq!['1']
    } else {
        seq!['0']
    })
}

/// The whole `index.csv` text: one line per row, each ending in `\n`.
pub open spec fn index_text(es: Seq<NoteView>) -> Seq<char>
    decreases es.len(),
{
    if es.len() == 0 {
        seq![]
    } else {
        index_text(es.drop_last()) + index_line(es.last()) + seq!['\n']
    }
}

/// What reading one trimmed, non-empty line gives.
pub enum LineParse {
    /// Fewer than three fields, or a number that does not parse: the line.
    BadLine(Seq<char>),
    /// The tag field holds a comma after trimming and truncation.
    BadTag,
    Entry(NoteView),
}

/// Tag field cleaned for storage: trimmed, cut to `MAX_TAG_LEN` bytes; `None`
/// when a comma remains.
pub open spec fn clean_tag_field(tag: Seq<char>) -> Option<Seq<char>> {
    let t = truncate_bytes(trim(tag), MAX_TAG_LEN as nat);
    if t.contains(',') {
        None
    } else {
        Some(t)
    }
}

/// `t` can be cut at `MAX_TAG_LEN` bytes without splitting a character.
pub open spec fn cut_ok_at(t: Seq<char>) -> bool {
    utf8_len(t) > MAX_TAG_LEN ==> has_byte_boundary(t, MAX_TAG_LEN as nat)
}

/// The trimmed tag can be cut at `MAX_TAG_LEN` bytes without splitting a character.
pub open spec fn tag_cut_ok(tag: Seq<char>) -> bool {
    cut_ok_at(trim(tag))
}

/// `splitn(3, ',')` of a line into exactly three fields.
#[verifier::opaque]
pub open spec fn three_fields(l: Seq<char>) -> Option<(Seq<char>, Seq<char>, Seq<char>)> {
    match first_index(l, ',') {
        None => None,
        Some(p1) => {
            let rest = l.subrange(p1 + 1, l.len() as int);
            match first_index(rest, ',') {
                None => None,
                Some(p2) => Some((l.subrange(0, p1), rest.subrange(0, p2), rest.subrange(p2 + 1, rest.len() as int))),
            }
        },
    }
}

/// Reading one index line.
#[verifier::opaque]
pub open spec fn parse_index_line_spec(l: Seq<char>) -> LineParse {
    match three_fields(l) {
        None => LineParse::BadLine(l),
        Some((a, b, c)) => match parse_i32_spec(a) {
            None => LineParse::BadLine(l),
            Some(num) => match clean_tag_field(b) {
                None => LineParse::BadTag,
                Some(tag) => LineParse::Entry((num, tag, trim(c) == seq!['1'])),
            },
        },
    }
}

/// Rows read from `pieces` and the first failure, if any (reading stops there).
pub open spec fn load_fold(pieces: Seq<Seq<char>>) -> (Seq<NoteView>, Option<LineParse>)
    decreases pieces.len(),
{
    if pieces.len() == 0 {
        (seq![], None)
    } else {
        let (es, f) = load_fold(pieces.drop_last());
        if f is Some {
            (es, f)
        } else {
            let t = trim(pieces.last());
            if t.len() == 0 {
                (es, None)
            } else {
                match parse_index_line_spec(t) {
                    LineParse::Entry(e) => (es.push(e), None),
                    bad => (es, Some(bad)),
                }
            }
        }
    }
}

/// The line's tag field, if it has one, can be cut safely.
pub open spec fn line_cut_ok(piece: Seq<char>) -> bool {
    match three_fields(trim(piece)) {
        Some((a, b, c)) => tag_cut_ok(b),
        None => true,
    }
}

/// Once reading fails, later lines change nothing.
pub proof fn lemma_load_fold_sticky(p: Seq<Seq<char>>, i: int, j: int)
    requires
        0 <= i <= j <= p.len(),
        load_fold(p.take(i)).1 is Some,
    ensures
        load_fold(p.take(j)) == load_fold(p.take(i)),
    decreases j - i,
{
    if j > i {
        lemma_load_fold_sticky(p, i, j - 1);
        assert(p.take(j).drop_last() =~= p.take(j - 1));
    }
}

/// Every line of the text can have its tag cut safely.
pub open spec fn all_tags_cut_ok(pieces: Seq<Seq<char>>) -> bool {
    forall|i: int| 0 <= i < pieces.len() ==> #[trigger] line_cut_ok(pieces[i])
}

fn sanitize_tag_field(tag: &[char]) -> (r: CoreResult<String>)
    requires
        tag_cut_ok(tag@),
    ensures
        match clean_tag_field(tag@) {
            Some(t) => r matches Ok(s) && s@ == t,
            None => r matches Err(CoreError::InvalidTag(m)) && m@ == "tag must not contain comma"@,
        },
{
    let t = trim_chars(tag);
    let cut = truncate_chars(&t, MAX_TAG_LEN);
    if crate::text::chars_contain(&cut, ',') {
        return Err(CoreError::InvalidTag(owned("tag must not contain comma")));
    }
    Ok(string_from_chars(&cut))
}

fn bad_line(line: &[char]) -> (e: CoreError)
    ensures
        e matches CoreError::InvalidIndexLine(m) && m@ == line@,
{
    CoreError::InvalidIndexLine(string_from_chars(line))
}

/// Parse one trimmed index line.
#[verifier::rlimit(40)]
fn parse_index_line(line: &[char]) -> (r: CoreResult<NoteEntry>)
    requires
        three_fields(line@) matches Some((a, b, c)) ==> tag_cut_ok(b),
    ensures
        match parse_index_line_spec(line@) {
            LineParse::Entry(e) => r matches Ok(x) && x@ == e,
            LineParse::BadLine(l) => r matches Err(CoreError::InvalidIndexLine(m)) && m@ == l,
            LineParse::BadTag => r matches Err(CoreError::InvalidTag(m)) && m@
                == "tag must not contain comma"@,
        },
{
    reveal(parse_index_line_spec);
    reveal(three_fields);
    let p1 = match find_char(line, 0, ',') {
        Some(p) => p,
        None => {
            assert(line@.subrange(0, line@.len() as int) =~= line@);
            return Err(bad_line(line));
        },
    };
    assert(line@.subrange(0, line@.len() as int) =~= line@);
    let n = line.len();
    let p2 = match find_char(line, p1 + 1, ',') {
        Some(p) => p,
        None => return Err(bad_line(line)),
    };
    let ghost rest = line@.subrange(p1 + 1, line@.len() as int);
    let a = slice_vec(line, 0, p1);
    let b = slice_vec(line, p1 + 1, p2);
    let c = slice_vec(line, p2 + 1, line.len());
    assert(b@ =~= rest.subrange(0, p2 - (p1 + 1)));
    assert(c@ =~= rest.subrange(p2 - (p1 + 1) + 1, rest.len() as int));
    let num = match parse_i32(&a) {
        Some(n) => n,
        None => return Err(bad_line(line)),
    };
    let tag = sanitize_tag_field(&b)?;
    let tc = trim_chars(&c);
    let one = ['1'];
    assert(one@ =~= seq!['1']);
    let has_text = chars_eq(&tc, &one);
    Ok(NoteEntry { num, tag, has_text })
}

/// Replace the store's rows with those read from `content`; on a bad line the rows
/// read before it stay and the error is returned.
pub fn load_index_from_text(store: &mut IndexStore, content: &str) -> (r: CoreResult<()>)
    requires
        all_tags_cut_ok(line_pieces(content@)),
    ensures
        final(store)@ == load_fold(line_pieces(content@)).0,
        match load_fold(line_pieces(content@)).1 {
            None => r is Ok,
            Some(LineParse::BadLine(l)) => r matches Err(CoreError::InvalidIndexLine(m)) && m@ == l,
            Some(LineParse::BadTag) => r matches Err(CoreError::InvalidTag(m)) && m@
                == "tag must not contain comma"@,
            Some(LineParse::Entry(_)) => false,
        },
{
    store.clear();
    let lines = lines_of(content);
    let ghost pieces = vec_views(lines@);
    let mut i: usize = 0;
    while i < lines.len()
        invariant
            pieces == vec_views(lines@),
            pieces == line_pieces(content@),
            all_tags_cut_ok(pieces),
            i <= lines@.len(),
            load_fold(pieces.take(i as int)) == (store@, None::<LineParse>),
        decreases lines@.len() - i,
    {
        assert(pieces.take(i + 1).drop_last() =~= pieces.take(i as int));
        assert(pieces.take(i + 1).last() == lines@[i as int]@);
        let t = trim_chars(&lines[i]);
        if t.len() == 0 {
            i += 1;
            continue;
        }
        assert(line_cut_ok(pieces[i as int]));
        let entry = match parse_index_line(&t) {
            Ok(e) => e,
            Err(e) => {
                proof {
                    lemma_load_fold_sticky(pieces, i + 1, pieces.len() as int);
                    assert(pieces.take(pieces.len() as int) =~= pieces);
                }
                return Err(e);
            },
        };
        store.entries.push(entry);
        assert(store@ =~= load_fold(pieces.take(i + 1)).0);
        i += 1;
    }
    assert(pieces.take(lines@.len() as int) =~= pieces);
    Ok(())
}

/// The characters of an optional text.
pub open spec fn text_view(t: Option<String>) -> Option<Seq<char>> {
    match t {
        Some(s) => Some(s@),
        None => None,
    }
}

/// The rows kept when the index file holds `answer` (`None`: no file).
pub open spec fn loaded_rows(answer: Option<Seq<char>>) -> Seq<NoteView> {
    match answer {
        None => Seq::empty(),
        Some(c) => if all_tags_cut_ok(line_pieces(c)) {
            load_fold(line_pieces(c)).0
        } else {
            Seq::empty()
        },
    }
}

/// Loading succeeds on `answer`: no file, or a file whose every line reads.
pub open spec fn loads_ok(answer: Option<Seq<char>>) -> bool {
    match answer {
        None => true,
        Some(c) => all_tags_cut_ok(line_pieces(c)) && load_fold(line_pieces(c)).1 is None,
    }
}

/// Replace the store's rows with those of the index file's text (`None`: no
/// file, an empty index). A tag that cannot be cut at `MAX_TAG_LEN` bytes
/// between characters is refused with `InvalidTag` and leaves the index empty;
/// a bad line keeps the rows before it and is refused as in `load_index_from_text`.
pub fn load_index_from_answer(store: &mut IndexStore, answer: Option<String>) -> (r: CoreResult<()>)
    ensures
        final(store)@ == loaded_rows(text_view(answer)),
        r is Ok <==> loads_ok(text_view(answer)),
        answer matches Some(c) ==> !all_tags_cut_ok(line_pieces(c@)) ==> (r matches Err(CoreError::InvalidTag(m))
            && m@ == "tag cannot be cut at 31 bytes"@),
        answer matches Some(c) ==> all_tags_cut_ok(line_pieces(c@)) ==> match load_fold(line_pieces(c@)).1 {
            Some(LineParse::BadLine(l)) => r matches Err(CoreError::InvalidIndexLine(m)) && m@ == l,
            Some(LineParse::BadTag) => r matches Err(CoreError::InvalidTag(m)) && m@
                == "tag must not contain comma"@,
            _ => true,
        },
{
    store.clear();
    let content = match answer {
        Some(c) => c,
        None => return Ok(()),
    };
    if !tags_cut_ok_exec(content.as_str()) {
        return Err(CoreError::InvalidTag(owned("tag cannot be cut at 31 bytes")));
    }
    load_index_from_text(store, content.as_str())
}

/// Reload the index from `INDEX_FILE`: the rows `load_index_from_answer` keeps
/// for the file's text. A store error leaves the index empty.
pub fn load_index<S: FileStorage>(storage: &S, store: &mut IndexStore) -> (r: CoreResult<()>)
    ensures
        r is Ok ==> loads_ok(file_text(storage.files(), INDEX_FILE@)),
        final(store)@ == loaded_rows(file_text(storage.files(), INDEX_FILE@)) || (r is Err
            && final(store)@.len() == 0),
        storage.reliable() && text_file_ok(storage.files(), INDEX_FILE@) ==> final(store)@ == loaded_rows(
            file_text(storage.files(), INDEX_FILE@),
        ) && (r is Ok <==> loads_ok(file_text(storage.files(), INDEX_FILE@))),
{
    broadcast use vstd::utf8::encode_utf8_decode_utf8;
    store.clear();
    let answer = match storage.read_to_string(INDEX_FILE) {
        Ok(a) => a,
        Err(e) => {
            assert(store@ =~= Seq::<NoteView>::empty());
            return Err(e);
        },
    };
    load_index_from_answer(store, answer)
}

/// Exec check of `all_tags_cut_ok`.
fn tags_cut_ok_exec(content: &str) -> (r: bool)
    ensures
        r == all_tags_cut_ok(line_pieces(content@)),
{
    let lines = lines_of(content);
    let ghost pieces = vec_views(lines@);
    let mut i: usize = 0;
    while i < lines.len()
        invariant
            pieces == vec_views(lines@),
            pieces == line_pieces(content@),
            i <= lines@.len(),
            forall|k: int| 0 <= k < i ==> #[trigger] line_cut_ok(pieces[k]),
        decreases lines@.len() - i,
    {
        assert(pieces[i as int] == lines@[i as int]@);
        if !line_cut_ok_exec(&lines[i]) {
            return false;
        }
        i += 1;
    }
    true
}

#[verifier::rlimit(50)]
fn line_cut_ok_exec(piece: &[char]) -> (r: bool)
    ensures
        r == line_cut_ok(piece@),
{
    reveal(three_fields);
    let t = trim_chars(piece);
    let tn = t.len();
    assert(t@.subrange(0, t@.len() as int) =~= t@);
    if let Some(p1) = find_char(&t, 0, ',') {
        if let Some(p2) = find_char(&t, p1 + 1, ',') {
            let b = slice_vec(&t, p1 + 1, p2);
            let ghost rest = t@.subrange(p1 + 1, t@.len() as int);
            assert(b@ =~= rest.subrange(0, p2 - (p1 + 1)));
            return cut_ok_exec(&b);
        }
    }
    true
}

fn cut_ok_exec(tag: &[char]) -> (r: bool)
    ensures
        r == tag_cut_ok(tag@),
{
    let t = trim_chars(tag);
    cut_at_ok_exec(&t)
}

/// Exec check of `cut_ok_at`.
pub(crate) fn cut_at_ok_exec(t: &[char]) -> (r: bool)
    ensures
        r == cut_ok_at(t@),
{
    crate::text::cut_ok_exec_n(t, MAX_TAG_LEN)
}

/// The `index.csv` text for the store's rows.
pub fn index_text_of(store: &IndexStore) -> (out: String)
    ensures
        out@ == index_text(store@),
{
    let mut out = String::new();
    let n = store.entries.len();
    let mut i: usize = 0;
    while i < n
        invariant
            n == store@.len(),
            i <= n,
            out@ == index_text(store@.take(i as int)),
        decreases n - i,
    {
        let e = &store.entries[i];
        assert(store@.take(i + 1).drop_last() =~= store@.take(i as int));
        push_int(&mut out, e.num as i64);
        push_char(&mut out, ',');
        push_str(&mut out, e.tag.as_str());
        push_char(&mut out, ',');
        push_char(&mut out, if e.has_text { '1' } else { '0' });
        push_char(&mut out, '\n');
        assert(out@ =~= index_text(store@.take(i + 1)));
        i += 1;
    }
    assert(store@.take(n as int) =~= store@);
    out
}

/// Persist the index atomically through `INDEX_TMP`.
pub fn save_index<S: FileStorage>(storage: &mut S, store: &IndexStore) -> (r: CoreResult<()>)
    ensures
        r is Ok ==> final(storage).files() == after_atomic_write(
            old(storage).files(),
            INDEX_FILE@,
            INDEX_TMP@,
            encode_utf8(index_text(store@)),
        ),
        old(storage).reliable() ==> r is Ok,
        final(storage).reliable() == old(storage).reliable(),
{
    proof {
        lemma_store_paths_distinct();
    }
    let out = index_text_of(store);
    storage.atomic_write_string(INDEX_FILE, INDEX_TMP, out.as_str())
}

/// Append a row (tag cleaned as in the file) and persist; a tag with a comma is
/// refused before anything changes.
pub fn add_to_index<S: FileStorage>(
    storage: &mut S,
    store: &mut IndexStore,
    num: i32,
    tag: &str,
    has_text: bool,
) -> (r: CoreResult<()>)
    requires
        tag_cut_ok(tag@),
    ensures
        match clean_tag_field(tag@) {
            Some(t) => final(store)@ == old(store)@.push((num, t, has_text)),
            None => final(store)@ == old(store)@ && (r matches Err(CoreError::InvalidTag(m)) && m@
                == "tag must not contain comma"@),
        },
        r is Ok ==> final(storage).files() == after_atomic_write(
            old(storage).files(),
            INDEX_FILE@,
            INDEX_TMP@,
            encode_utf8(index_text(final(store)@)),
        ),
        old(storage).reliable() && clean_tag_field(tag@) is Some ==> r is Ok,
        final(storage).reliable() == old(storage).reliable(),
{
    let v = chars_of(tag);
    let tag = sanitize_tag_field(&v)?;
    store.entries.push(NoteEntry { num, tag, has_text });
    assert(store@ =~= old(store)@.push((num, store@.last().1, has_text)));
    save_index(storage, store)
}

/// Mark note `num` as transcribed and persist; returns its tag.
pub fn update_index_has_text<S: FileStorage>(storage: &mut S, store: &mut IndexStore, num: i32) -> (r:
    CoreResult<Option<String>>)
    ensures
        match first_with_num(old(store)@, num) {
            None => r == Err::<Option<String>, CoreError>(CoreError::NoteNotFound(num))
                && final(store)@ == old(store)@,
            Some(i) => final(store)@ == old(store)@.update(
                i,
                (old(store)@[i].0, old(store)@[i].1, true),
            ) && (r matches Ok(t) ==> t matches Some(s) && s@ == old(store)@[i].1),
        },
        r is Ok ==> final(storage).files() == after_atomic_write(
            old(storage).files(),
            INDEX_FILE@,
            INDEX_TMP@,
            encode_utf8(index_text(final(store)@)),
        ),
        old(storage).reliable() && first_with_num(old(store)@, num) is Some ==> r is Ok,
        first_with_num(old(store)@, num) is None ==> final(storage).files() == old(storage).files(),
        final(storage).reliable() == old(storage).reliable(),
{
    let tag = match store.find_mut(num) {
        Some(e) => {
            e.has_text = true;
            owned(e.tag.as_str())
        },
        None => return Err(CoreError::NoteNotFound(num)),
    };
    save_index(storage, store)?;
    Ok(Some(tag))
}

/// `es` without its first row numbered `num`.
pub open spec fn remove_first(es: Seq<NoteView>, num: i32) -> Seq<NoteView> {
    match first_with_num(es, num) {
        Some(i) => es.remove(i),
        None => es,
    }
}

proof fn lemma_views_remove(es: Seq<NoteEntry>, i: int)
    requires
        0 <= i < es.len(),
    ensures
        entry_views(es.remove(i)) == entry_views(es).remove(i),
{
    assert(entry_views(es.remove(i)) =~= entry_views(es).remove(i));
}

/// The files without the note's `.wav`, `.txt` and `.meta`.
pub open spec fn notes_removed(files: Map<Seq<char>, Seq<u8>>, num: i32) -> Map<Seq<char>, Seq<u8>> {
    files.remove(note_path_spec(num, "wav"@)).remove(note_path_spec(num, "txt"@)).remove(
        note_path_spec(num, "meta"@),
    )
}

/// Remove the file when it exists.
fn remove_if_present<S: FileStorage>(storage: &mut S, path: &str) -> (r: CoreResult<()>)
    ensures
        r is Ok ==> final(storage).files() == old(storage).files().remove(path@),
        old(storage).reliable() ==> r is Ok,
        final(storage).reliable() == old(storage).reliable(),
{
    if storage.path_exists(path)? {
        storage.remove(path)?;
    } else {
        assert(storage.files() =~= old(storage).files().remove(path@));
    }
    Ok(())
}

/// Remove whichever of the note's `.wav`, `.txt` and `.meta` files exist.
fn remove_note_files<S: FileStorage>(storage: &mut S, num: i32) -> (r: CoreResult<()>)
    ensures
        r is Ok ==> final(storage).files() == notes_removed(old(storage).files(), num),
        old(storage).reliable() ==> r is Ok,
        final(storage).reliable() == old(storage).reliable(),
{
    let wav = note_path(num, "wav");
    remove_if_present(storage, wav.as_str())?;
    let txt = note_path(num, "txt");
    remove_if_present(storage, txt.as_str())?;
    let meta = note_path(num, "meta");
    remove_if_present(storage, meta.as_str())?;
    Ok(())
}

/// Remove the note's `.wav`, `.txt` and `.meta` files, then its row. A store error
/// stops the work where it happened.
pub fn delete_note<S: FileStorage>(storage: &mut S, store: &mut IndexStore, num: i32) -> (r: CoreResult<()>)
    ensures
        final(store)@ == old(store)@ || final(store)@ == remove_first(old(store)@, num),
        r is Ok ==> final(store)@ == remove_first(old(store)@, num),
        r is Ok ==> final(storage).files() == if first_with_num(old(store)@, num) is Some {
            after_atomic_write(
                notes_removed(old(storage).files(), num),
                INDEX_FILE@,
                INDEX_TMP@,
                encode_utf8(index_text(final(store)@)),
            )
        } else {
            notes_removed(old(storage).files(), num)
        },
        old(storage).reliable() ==> r is Ok,
        final(storage).reliable() == old(storage).reliable(),
{
    remove_note_files(storage, num)?;
    match store.position(num) {
        Some(pos) => {
            let ghost before = store.entries@;
            store.entries.remove(pos);
            proof {
                lemma_views_remove(before, pos as int);
            }
            save_index(storage, store)?;
        },
        None => {},
    }
    Ok(())
}

/// Largest row number, or 0 for an empty index.
pub open spec fn max_num(es: Seq<NoteView>) -> int
    decreases es.len(),
{
    if es.len() == 0 {
        0
    } else if es.len() == 1 {
        es[0].0 as int
    } else {
        let m = max_num(es.drop_last());
        if es.last().0 > m {
            es.last().0 as int
        } else {
            m
        }
    }
}

/// One past the largest note number (1 for an empty index).
pub fn next_note_number(store: &IndexStore) -> (n: i32)
    requires
        max_num(store@) < i32::MAX,
    ensures
        n == max_num(store@) + 1,
{
    let len = store.entries.len();
    if len == 0 {
        return 1;
    }
    let mut m: i32 = store.entries[0].num;
    let mut i: usize = 1;
    assert(store@.take(1).drop_last().len() == 0);
    assert(store@.take(1) =~= seq![store@[0]]);
    while i < len
        invariant
            len == store@.len(),
            1 <= i <= len,
            m == max_num(store@.take(i as int)),
        decreases len - i,
    {
        assert(store@.take(i + 1).drop_last() =~= store@.take(i as int));
        if store.entries[i].num > m {
            m = store.entries[i].num;
        }
        i += 1;
    }
    assert(store@.take(len as int) =~= store@);
    m + 1
}


/// A tag the index file stores as is: trimmed, no comma or newline, at most
/// `MAX_TAG_LEN` bytes.
pub open spec fn storable_tag(t: Seq<char>) -> bool {
    trim(t) == t && !t.contains(',') && !t.contains('\n') && utf8_len(t) <= MAX_TAG_LEN
}

proof fn lemma_pieces_append(s: Seq<char>, t: Seq<char>)
    requires
        !t.contains('\n'),
    ensures
        pieces_fold(s + t) == (pieces_fold(s).0, pieces_fold(s).1 + t),
    decreases t.len(),
{
    if t.len() == 0 {
        assert(s + t =~= s);
        assert(pieces_fold(s).1 + t =~= pieces_fold(s).1);
    } else {
        let t0 = t.drop_last();
        assert(!t0.contains('\n')) by {
            if t0.contains('\n') {
                let k = choose|k: int| 0 <= k < t0.len() && t0[k] == '\n';
                assert(t[k] == '\n');
            }
        }
        lemma_pieces_append(s, t0);
        assert((s + t).drop_last() =~= s + t0);
        assert(t.last() != '\n') by {
            assert(t[t.len() - 1] == t.last());
        }
        assert(pieces_fold(s).1 + t =~= (pieces_fold(s).1 + t0).push(t.last()));
    }
}

proof fn lemma_dec_digits_shape(n: nat)
    ensures
        dec_digits(n).len() >= 1,
        all_digits(dec_digits(n)),
        digits_value(dec_digits(n)) == n,
    decreases n,
{
    if n >= 10 {
        lemma_dec_digits_shape(n / 10);
        let d = dec_digits(n / 10);
        let c = digit_char((n % 10) as int);
        assert(dec_digits(n) == d.push(c));
        assert(d.push(c).drop_last() =~= d);
        assert((c as u32) == (n % 10) + 48);
        assert(digits_value(d.push(c)) == digits_value(d) * 10 + ((c as u32) - 48) as nat);
        assert(n == (n / 10) * 10 + n % 10);
        assert(digits_value(d.push(c)) == n);
        assert forall|i: int| 0 <= i < d.push(c).len() implies is_ascii_digit(#[trigger] d.push(c)[i]) by {
            if i < d.len() {
                assert(is_ascii_digit(d[i]));
            }
        }
    } else {
        assert(seq![digit_char(n as int)].drop_last().len() == 0);
        assert((digit_char(n as int) as u32) == n + 48);
        let one = seq![digit_char(n as int)];
        assert(digits_value(one.drop_last()) == 0);
        assert(digits_value(one) == digits_value(one.drop_last()) * 10 + ((one.last() as u32) - 48) as nat);
    }
}

proof fn lemma_parse_fmt_int(n: i32)
    ensures
        parse_i32_spec(fmt_int(n as int, 0)) == Some(n),
        fmt_int(n as int, 0).len() >= 1,
        !fmt_int(n as int, 0).contains(','),
        !fmt_int(n as int, 0).contains('\n'),
        !is_ws(fmt_int(n as int, 0)[0]),
{
    if n < 0 {
        let d = dec_digits((-n) as nat);
        lemma_dec_digits_shape((-n) as nat);
        assert(zeros(0 - 1 - d.len()) =~= Seq::<char>::empty());
        let f = fmt_int(n as int, 0);
        assert(f =~= seq!['-'] + d);
        assert(f.drop_first() =~= d);
        assert(!f.contains(',')) by {
            if f.contains(',') {
                let k = choose|k: int| 0 <= k < f.len() && f[k] == ',';
                if k > 0 {
                    assert(is_ascii_digit(d[k - 1]));
                }
            }
        }
        assert(!f.contains('\n')) by {
            if f.contains('\n') {
                let k = choose|k: int| 0 <= k < f.len() && f[k] == '\n';
                if k > 0 {
                    assert(is_ascii_digit(d[k - 1]));
                }
            }
        }
    } else {
        let d = dec_digits(n as nat);
        lemma_dec_digits_shape(n as nat);
        assert(zeros(0 - d.len()) =~= Seq::<char>::empty());
        let f = fmt_int(n as int, 0);
        assert(f =~= d);
        assert(is_ascii_digit(d[0]));
        assert(!f.contains(',')) by {
            if f.contains(',') {
                let k = choose|k: int| 0 <= k < f.len() && f[k] == ',';
                assert(is_ascii_digit(d[k]));
            }
        }
        assert(!f.contains('\n')) by {
            if f.contains('\n') {
                let k = choose|k: int| 0 <= k < f.len() && f[k] == '\n';
                assert(is_ascii_digit(d[k]));
            }
        }
    }
}

proof fn lemma_first_index_at(s: Seq<char>, c: char, p: int)
    requires
        0 <= p < s.len(),
        s[p] == c,
        forall|j: int| 0 <= j < p ==> s[j] != c,
    ensures
        first_index(s, c) == Some(p),
{
    reveal(first_index);
    assert(s.contains(c));
    let k = choose|k: int| 0 <= k < s.len() && s[k] == c && forall|j: int| 0 <= j < k ==> s[j] != c;
    assert(k == p) by {
        if k < p {
        } else if k > p {
        }
    }
}

proof fn lemma_line_fields(e: NoteView)
    requires
        storable_tag(e.1),
    ensures
        three_fields(index_line(e)) == Some((fmt_int(e.0 as int, 0), e.1, if e.2 { seq!['1'] } else { seq!['0'] })),
        trim(index_line(e)) == index_line(e),
        !index_line(e).contains('\n'),
{
    reveal(three_fields);
    lemma_parse_fmt_int(e.0);
    let f = fmt_int(e.0 as int, 0);
    let t = e.1;
    let b: Seq<char> = if e.2 { seq!['1'] } else { seq!['0'] };
    let l = index_line(e);
    assert(l =~= f + seq![','] + t + seq![','] + b);
    assert forall|j: int| 0 <= j < f.len() implies l[j] != ',' by {
        assert(l[j] == f[j]);
        if f[j] == ',' {
            assert(f.contains(','));
        }
    }
    lemma_first_index_at(l, ',', f.len() as int);
    let rest = l.subrange(f.len() as int + 1, l.len() as int);
    assert(rest =~= t + seq![','] + b);
    assert forall|j: int| 0 <= j < t.len() implies rest[j] != ',' by {
        assert(rest[j] == t[j]);
        if t[j] == ',' {
            assert(t.contains(','));
        }
    }
    lemma_first_index_at(rest, ',', t.len() as int);
    assert(l.subrange(0, f.len() as int) =~= f);
    assert(rest.subrange(0, t.len() as int) =~= t);
    assert(rest.subrange(t.len() as int + 1, rest.len() as int) =~= b);
    // trimming changes nothing: first and last characters are not white space
    assert(l[0] == f[0]);
    assert(trim_start(l) == l);
    assert(l.last() == b[0]);
    assert(trim_end(l) == l);
    assert(!l.contains('\n')) by {
        if l.contains('\n') {
            let k = choose|k: int| 0 <= k < l.len() && l[k] == '\n';
            if k < f.len() {
                assert(l[k] == f[k]);
                assert(f.contains('\n'));
            } else if k == f.len() {
            } else if k < f.len() + 1 + t.len() {
                assert(l[k] == t[k - f.len() - 1]);
                assert(t.contains('\n'));
            } else if k == f.len() + 1 + t.len() {
            } else {
                assert(l[k] == b[k - f.len() - 2 - t.len()]);
            }
        }
    }
}

proof fn lemma_parse_line(e: NoteView)
    requires
        storable_tag(e.1),
    ensures
        parse_index_line_spec(index_line(e)) == LineParse::Entry(e),
        line_cut_ok(index_line(e)),
{
    reveal(parse_index_line_spec);
    lemma_line_fields(e);
    lemma_parse_fmt_int(e.0);
    let t = e.1;
    assert(truncate_bytes(t, MAX_TAG_LEN as nat) == t);
    assert(clean_tag_field(t) == Some(t));
    let b: Seq<char> = if e.2 { seq!['1'] } else { seq!['0'] };
    assert(trim_start(b) == b);
    assert(trim_end(b) == b);
    if !e.2 {
        assert(b[0] != seq!['1'][0]);
    }
    assert((trim(b) == seq!['1']) == e.2);
}

proof fn lemma_text_pieces(es: Seq<NoteView>)
    requires
        forall|i: int| 0 <= i < es.len() ==> storable_tag(#[trigger] es[i].1),
    ensures
        pieces_fold(index_text(es)) == (es.map_values(|e: NoteView| index_line(e)), Seq::<char>::empty()),
    decreases es.len(),
{
    if es.len() == 0 {
        assert(es.map_values(|e: NoteView| index_line(e)) =~= Seq::<Seq<char>>::empty());
    } else {
        let init = es.drop_last();
        lemma_text_pieces(init);
        let e = es.last();
        lemma_line_fields(e);
        let prev = index_text(init);
        lemma_pieces_append(prev, index_line(e));
        assert(Seq::<char>::empty() + index_line(e) =~= index_line(e));
        let s1 = prev + index_line(e);
        assert(index_text(es) == s1 + seq!['\n']);
        assert((s1 + seq!['\n']).drop_last() =~= s1);
        assert(es.map_values(|x: NoteView| index_line(x)) =~= init.map_values(|x: NoteView| index_line(x)).push(index_line(e)));
    }
}

proof fn lemma_load_lines(es: Seq<NoteView>)
    requires
        forall|i: int| 0 <= i < es.len() ==> storable_tag(#[trigger] es[i].1),
    ensures
        load_fold(es.map_values(|e: NoteView| index_line(e))) == (es, None::<LineParse>),
        all_tags_cut_ok(es.map_values(|e: NoteView| index_line(e))),
    decreases es.len(),
{
    let m = es.map_values(|e: NoteView| index_line(e));
    if es.len() == 0 {
        assert(m.len() == 0);
        assert(es =~= Seq::<NoteView>::empty());
    } else {
        let init = es.drop_last();
        lemma_load_lines(init);
        assert(m.drop_last() =~= init.map_values(|e: NoteView| index_line(e)));
        let e = es.last();
        lemma_line_fields(e);
        lemma_parse_line(e);
        lemma_parse_fmt_int(e.0);
        assert(m.last() == index_line(e));
        assert(trim(m.last()).len() > 0);
        assert(init.push(e) =~= es);
        assert forall|i: int| 0 <= i < m.len() implies #[trigger] line_cut_ok(m[i]) by {
            lemma_parse_line(es[i]);
        }
    }
}

/// Reading back what `save_index` writes gives the same rows, for rows whose tags
/// the file can hold unchanged.
pub proof fn lemma_index_text_roundtrip(es: Seq<NoteView>)
    requires
        forall|i: int| 0 <= i < es.len() ==> storable_tag(#[trigger] es[i].1),
    ensures
        all_tags_cut_ok(line_pieces(index_text(es))),
        load_fold(line_pieces(index_text(es))) == (es, None::<LineParse>),
{
    lemma_text_pieces(es);
    lemma_load_lines(es);
}

/// Saving the index and loading it back gives the same rows, for rows whose
/// tags the file can hold unchanged: the saved file is UTF-8 text whose every
/// line reads, and the rows it gives are the rows saved.
pub proof fn lemma_index_save_load(files: Map<Seq<char>, Seq<u8>>, es: Seq<NoteView>)
    requires
        forall|i: int| 0 <= i < es.len() ==> storable_tag(#[trigger] es[i].1),
    ensures
        ({
            let saved = after_atomic_write(files, INDEX_FILE@, INDEX_TMP@, encode_utf8(index_text(es)));
            &&& text_file_ok(saved, INDEX_FILE@)
            &&& loads_ok(file_text(saved, INDEX_FILE@))
            &&& loaded_rows(file_text(saved, INDEX_FILE@)) == es
        }),
{
    broadcast use vstd::utf8::encode_utf8_decode_utf8, vstd::utf8::encode_utf8_valid_utf8;
    lemma_index_text_roundtrip(es);
}

} // verus!
