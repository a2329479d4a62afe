//! The tag list (`tags.txt`, one tag per line).
use vstd::prelude::*;

use crate::error::{CoreError, CoreResult};
use crate::paths::{lemma_store_paths_distinct, DEFAULT_TAGS, MAX_TAGS, MAX_TAG_LEN, TAG_FILE, TAG_TMP};
use vstd::utf8::{decode_utf8, encode_utf8, valid_utf8};
use crate::text::{
    chars_eq_ignore_case, chars_of, eq_ignore_case, has_byte_boundary, line_pieces, lines_of,
    owned, push_char, push_str, str_eq, str_eq_ignore_case, string_from_chars, trim, trim_chars,
    truncate_bytes, truncate_chars, utf8_len, vec_views, pieces_fold, lemma_pieces_append_text,
};

use super::index::{cut_at_ok_exec, cut_ok_at, index_text, retag, save_index, IndexStore, NoteView};
use crate::paths::{INDEX_FILE, INDEX_TMP};
use super::{after_atomic_write, file_text, text_file_ok, FileStorage};

verus! {

/// In-memory tag list with SD persistence.
#[derive(Debug)]
pub struct TagStore {
    pub tags: Vec<String>,
}

pub open spec fn string_views(v: Seq<String>) -> Seq<Seq<char>> {
    v.map_values(|s: String| s@)
}

impl View for TagStore {
    type V = Seq<Seq<char>>;

    open spec fn view(&self) -> Seq<Seq<char>> {
        string_views(self.tags@)
    }
}

/// Some tag equals `name` ignoring ASCII case.
pub open spec fn contains_ic(tags: Seq<Seq<char>>, name: Seq<char>) -> bool {
    exists|i: int| 0 <= i < tags.len() && eq_ignore_case(#[trigger] tags[i], name)
}

/// Position of the first tag satisfying `hit`.
pub open spec fn first_hit(tags: Seq<Seq<char>>, name: Seq<char>, ic: bool) -> Option<int> {
    let hit = |t: Seq<char>| if ic { eq_ignore_case(t, name) } else { t == name };
    if exists|i: int| 0 <= i < tags.len() && hit(#[trigger] tags[i]) {
        Some(choose|i: int| 0 <= i < tags.len() && hit(tags[i]) && forall|j: int| 0 <= j < i ==> !hit(#[trigger] tags[j]))
    } else {
        None
    }
}

impl TagStore {
    pub fn new() -> (s: Self)
        ensures
            s@ == Seq::<Seq<char>>::empty(),
    {
        TagStore { tags: Vec::new() }
    }

    pub fn tags(&self) -> (t: &[String])
        ensures
            t@ == self.tags@,
    {
        self.tags.as_slice()
    }

    pub fn count(&self) -> (n: usize)
        ensures
            n == self@.len(),
    {
        self.tags.len()
    }

    fn position(&self, name: &str, ic: bool) -> (r: Option<usize>)
        ensures
            r matches Some(i) ==> first_hit(self@, name@, ic) == Some(i as int) && i < self@.len(),
            r is None ==> first_hit(self@, name@, ic) is None,
    {
        let ghost hit = |t: Seq<char>| if ic { eq_ignore_case(t, name@) } else { t == name@ };
        let mut i: usize = 0;
        while i < self.tags.len()
            invariant
                i <= self@.len(),
                self@.len() == self.tags@.len(),
                hit == (|t: Seq<char>| if ic { eq_ignore_case(t, name@) } else { t == name@ }),
                forall|j: int| 0 <= j < i ==> !hit(#[trigger] self@[j]),
            decreases self.tags@.len() - i,
        {
            let t = self.tags[i].as_str();
            let m = if ic { str_eq_ignore_case(t, name) } else { str_eq(t, name) };
            assert(self@[i as int] == t@);
            if m {
                proof {
                    let k = choose|k: int| 0 <= k < self@.len() && hit(self@[k]) && forall|j: int|
                        0 <= j < k ==> !hit(#[trigger] self@[j]);
                    if k < i {
                    } else if k > i {
                        assert(!hit(self@[i as int]));
                    }
                }
                return Some(i);
            }
            i += 1;
        }
        None
    }

    pub fn contains_ignore_case(&self, name: &str) -> (r: bool)
        ensures
            r == contains_ic(self@, name@),
    {
        let r = self.position(name, true);
        proof {
            if contains_ic(self@, name@) {
                let i = choose|i: int| 0 <= i < self@.len() && eq_ignore_case(#[trigger] self@[i], name@);
                assert((|t: Seq<char>| eq_ignore_case(t, name@))(self@[i]));
            }
        }
        r.is_some()
    }

    pub fn index_of(&self, name: &str) -> (r: Option<usize>)
        ensures
            r matches Some(i) ==> first_hit(self@, name@, false) == Some(i as int) && i < self@.len(),
            r is None ==> first_hit(self@, name@, false) is None,
    {
        self.position(name, false)
    }

    pub fn index_of_ignore_case(&self, name: &str) -> (r: Option<usize>)
        ensures
            r matches Some(i) ==> first_hit(self@, name@, true) == Some(i as int) && i < self@.len(),
            r is None ==> first_hit(self@, name@, true) is None,
    {
        self.position(name, true)
    }
}

impl Default for TagStore {
    fn default() -> (s: Self)
        ensures
            s@ == Seq::<Seq<char>>::empty(),
    {
        TagStore::new()
    }
}

/// The tags read from the lines of `tags.txt`: trimmed, blank lines and case-
/// insensitive repeats skipped, at most `MAX_TAGS`, each cut to `MAX_TAG_LEN`
/// bytes; `None` when a kept line cannot be cut between characters.
pub open spec fn tags_fold(pieces: Seq<Seq<char>>) -> Option<Seq<Seq<char>>>
    decreases pieces.len(),
{
    if pieces.len() == 0 {
        Some(Seq::empty())
    } else {
        match tags_fold(pieces.drop_last()) {
            None => None,
            Some(acc) => {
                let t = trim(pieces.last());
                if t.len() == 0 || contains_ic(acc, t) || acc.len() >= MAX_TAGS {
                    Some(acc)
                } else if !cut_ok_at(t) {
                    None
                } else {
                    Some(acc.push(truncate_bytes(t, MAX_TAG_LEN as nat)))
                }
            },
        }
    }
}

/// Once the list is full, later lines change nothing.
proof fn lemma_tags_fold_full(p: Seq<Seq<char>>, i: int, j: int)
    requires
        0 <= i <= j <= p.len(),
        tags_fold(p.take(i)) matches Some(acc) && acc.len() >= MAX_TAGS,
    ensures
        tags_fold(p.take(j)) == tags_fold(p.take(i)),
    decreases j - i,
{
    if j > i {
        lemma_tags_fold_full(p, i, j - 1);
        assert(p.take(j).drop_last() =~= p.take(j - 1));
    }
}

/// Replace the store's tags with those read from `content`.
pub fn load_tags_from_text(store: &mut TagStore, content: &str) -> (r: CoreResult<()>)
    ensures
        match tags_fold(line_pieces(content@)) {
            Some(ts) => r is Ok && final(store)@ == ts,
            None => final(store)@ == Seq::<Seq<char>>::empty() && (r matches Err(
                CoreError::InvalidTag(m),
            ) && m@ == "tag cannot be cut at 31 bytes"@),
        },
{
    store.tags.clear();
    let lines = lines_of(content);
    let ghost pieces = vec_views(lines@);
    assert(store@ =~= Seq::<Seq<char>>::empty());
    assert(pieces.take(0) =~= Seq::<Seq<char>>::empty());
    let mut i: usize = 0;
    while i < lines.len()
        invariant
            pieces == vec_views(lines@),
            pieces == line_pieces(content@),
            pieces.len() == lines@.len(),
            i <= lines@.len(),
            tags_fold(pieces.take(i as int)) == Some(store@),
        decreases lines@.len() - i,
    {
        assert(pieces.take(i + 1).drop_last() =~= pieces.take(i as int));
        assert(pieces.take(i + 1).last() == lines@[i as int]@);
        let t = trim_chars(&lines[i]);
        if t.len() == 0 {
            i += 1;
            continue;
        }
        let ts = string_from_chars(&t);
        if store.contains_ignore_case(ts.as_str()) {
            i += 1;
            continue;
        }
        if store.tags.len() >= MAX_TAGS {
            proof {
                lemma_tags_fold_full(pieces, i as int, pieces.len() as int);
                assert(pieces.take(pieces.len() as int) =~= pieces);
            }
            return Ok(());
        }
        if !cut_at_ok_exec(&t) {
            store.tags.clear();
            assert(store@ =~= Seq::<Seq<char>>::empty());
            proof {
                lemma_tags_fold_none(pieces, i + 1, pieces.len() as int);
                assert(pieces.take(pieces.len() as int) =~= pieces);
            }
            return Err(CoreError::InvalidTag(owned("tag cannot be cut at 31 bytes")));
        }
        let cut = truncate_chars(&t, MAX_TAG_LEN);
        let cs = string_from_chars(&cut);
        let ghost before = store@;
        store.tags.push(cs);
        assert(store@ =~= before.push(cut@));
        i += 1;
    }
    assert(pieces.take(lines@.len() as int) =~= pieces);
    Ok(())
}

/// Once reading fails, later lines change nothing.
proof fn lemma_tags_fold_none(p: Seq<Seq<char>>, i: int, j: int)
    requires
        0 <= i <= j <= p.len(),
        tags_fold(p.take(i)) is None,
    ensures
        tags_fold(p.take(j)) is None,
    decreases j - i,
{
    if j > i {
        lemma_tags_fold_none(p, i, j - 1);
        assert(p.take(j).drop_last() =~= p.take(j - 1));
    }
}

/// The text of `tags.txt`: each non-empty tag on a line of its own.
pub open spec fn tags_text(ts: Seq<Seq<char>>) -> Seq<char>
    decreases ts.len(),
{
    if ts.len() == 0 {
        Seq::empty()
    } else if ts.last().len() == 0 {
        tags_text(ts.drop_last())
    } else {
        tags_text(ts.drop_last()) + ts.last() + seq!['\n']
    }
}

/// The `tags.txt` text for the store's tags.
pub fn tags_text_of(store: &TagStore) -> (out: String)
    ensures
        out@ == tags_text(store@),
{
    let mut out = String::new();
    let n = store.tags.len();
    let mut i: usize = 0;
    while i < n
        invariant
            n == store@.len(),
            n == store.tags@.len(),
            i <= n,
            out@ == tags_text(store@.take(i as int)),
        decreases n - i,
    {
        assert(store@.take(i + 1).drop_last() =~= store@.take(i as int));
        assert(store@.take(i + 1).last() == store.tags@[i as int]@);
        let t = store.tags[i].as_str();
        if !t.is_empty() {
            push_str(&mut out, t);
            push_char(&mut out, '\n');
        }
        i += 1;
    }
    assert(store@.take(n as int) =~= store@);
    out
}

/// Persist the tag list atomically through `TAG_TMP`.
pub fn save_tags<S: FileStorage>(storage: &mut S, store: &TagStore) -> (r: CoreResult<()>)
    ensures
        r is Ok ==> final(storage).files() == after_atomic_write(
            old(storage).files(),
            TAG_FILE@,
            TAG_TMP@,
            encode_utf8(tags_text(store@)),
        ),
        old(storage).reliable() ==> r is Ok,
        final(storage).reliable() == old(storage).reliable(),
{
    proof {
        lemma_store_paths_distinct();
    }
    let out = tags_text_of(store);
    storage.atomic_write_string(TAG_FILE, TAG_TMP, out.as_str())
}

/// The default tag list.
pub open spec fn default_tags() -> Seq<Seq<char>> {
    DEFAULT_TAGS@.map_values(|t: &str| t@)
}

fn create_default_tags<S: FileStorage>(storage: &mut S, store: &mut TagStore) -> (r: CoreResult<()>)
    ensures
        final(store)@ == default_tags(),
        r is Ok ==> final(storage).files() == after_atomic_write(
            old(storage).files(),
            TAG_FILE@,
            TAG_TMP@,
            encode_utf8(tags_text(default_tags())),
        ),
        old(storage).reliable() ==> r is Ok,
        final(storage).reliable() == old(storage).reliable(),
{
    store.tags.clear();
    let d = DEFAULT_TAGS;
    let mut k: usize = 0;
    while k < d.len()
        invariant
            d@ == DEFAULT_TAGS@,
            k <= d@.len(),
            store@ == default_tags().take(k as int),
        decreases d@.len() - k,
    {
        let ghost before = store@;
        let t = owned(d[k]);
        assert(default_tags().len() == d@.len());
        assert(default_tags()[k as int] == t@);
        store.tags.push(t);
        assert(store@ =~= before.push(default_tags()[k as int]));
        assert(store@ =~= default_tags().take(k + 1));
        k += 1;
    }
    assert(default_tags().take(d@.len() as int) =~= default_tags());
    save_tags(storage, store)
}

/// The tag list kept when the tag file holds `answer` (`None`: no file): the
/// file's tags, or the default list when it has none or is missing; `None` when
/// a tag cannot be cut at `MAX_TAG_LEN` bytes between characters.
pub open spec fn loaded_tags(answer: Option<Seq<char>>) -> Option<Seq<Seq<char>>> {
    match answer {
        None => Some(default_tags()),
        Some(c) => match tags_fold(line_pieces(c)) {
            None => None,
            Some(ts) => if ts.len() == 0 {
                Some(default_tags())
            } else {
                Some(ts)
            },
        },
    }
}

/// Loading falls back to the default list, which is then written back.
pub open spec fn writes_defaults(answer: Option<Seq<char>>) -> bool {
    match answer {
        None => true,
        Some(c) => tags_fold(line_pieces(c)) == Some(Seq::<Seq<char>>::empty()),
    }
}

/// The files after loading the tags from a store holding `files`.
pub open spec fn files_after_tag_load(files: Map<Seq<char>, Seq<u8>>) -> Map<Seq<char>, Seq<u8>> {
    if writes_defaults(file_text(files, TAG_FILE@)) {
        after_atomic_write(files, TAG_FILE@, TAG_TMP@, encode_utf8(tags_text(default_tags())))
    } else {
        files
    }
}

/// Reload the tag list from `TAG_FILE`; a missing file, or one with no tags,
/// gives the default list (written back). A tag that cannot be cut at
/// `MAX_TAG_LEN` bytes between characters is refused with `InvalidTag`.
pub fn load_tags<S: FileStorage>(storage: &mut S, store: &mut TagStore) -> (r: CoreResult<()>)
    ensures
        final(store)@.len() <= MAX_TAGS,
        r is Ok ==> loaded_tags(file_text(old(storage).files(), TAG_FILE@)) == Some(final(store)@)
            && final(storage).files() == files_after_tag_load(old(storage).files()),
        old(storage).reliable() && text_file_ok(old(storage).files(), TAG_FILE@) ==> match loaded_tags(
            file_text(old(storage).files(), TAG_FILE@),
        ) {
            Some(ts) => r is Ok,
            None => (r matches Err(CoreError::InvalidTag(m)) && m@ == "tag cannot be cut at 31 bytes"@)
                && final(store)@.len() == 0 && final(storage).files() == old(storage).files(),
        },
        final(storage).reliable() == old(storage).reliable(),
{
    broadcast use vstd::utf8::encode_utf8_decode_utf8;
    store.tags.clear();
    assert(store@ =~= Seq::<Seq<char>>::empty());
    if !storage.path_exists(TAG_FILE)? {
        create_default_tags(storage, store)?;
        return Ok(());
    }
    let content = match storage.read_to_string(TAG_FILE)? {
        Some(c) => c,
        None => {
            create_default_tags(storage, store)?;
            return Ok(());
        },
    };
    proof {
        lemma_tags_fold_len(line_pieces(content@));
    }
    load_tags_from_text(store, content.as_str())?;
    assert(file_text(old(storage).files(), TAG_FILE@) == Some(content@));
    if store.tags.len() == 0 {
        assert(store@ =~= Seq::<Seq<char>>::empty());
        create_default_tags(storage, store)?;
    } else {
        assert(store@.len() > 0);
    }
    Ok(())
}

proof fn lemma_tags_fold_len(p: Seq<Seq<char>>)
    ensures
        tags_fold(p) matches Some(ts) ==> ts.len() <= MAX_TAGS,
    decreases p.len(),
{
    if p.len() > 0 {
        lemma_tags_fold_len(p.drop_last());
    }
}

/// Every run of spaces in `s` shortened to one space.
pub open spec fn collapse_spaces(s: Seq<char>) -> Seq<char>
    decreases s.len(),
{
    if s.len() == 0 {
        Seq::empty()
    } else {
        let c = collapse_spaces(s.drop_last());
        if s.last() == ' ' && c.len() > 0 && c.last() == ' ' {
            c
        } else {
            c.push(s.last())
        }
    }
}

/// Commas and line breaks turned into spaces.
pub open spec fn blank_separators(s: Seq<char>) -> Seq<char> {
    s.map_values(|c: char| if c == ',' || c == '\n' || c == '\r' { ' ' } else { c })
}

/// A tag name before the length cut: trimmed, separators blanked, spaces
/// collapsed, trimmed again.
pub open spec fn tag_name_core(raw: Seq<char>) -> Seq<char> {
    trim(collapse_spaces(blank_separators(trim(raw))))
}

/// The cleaned tag name: its core cut to `MAX_TAG_LEN` bytes.
pub open spec fn sanitized_tag(raw: Seq<char>) -> Seq<char> {
    truncate_bytes(tag_name_core(raw), MAX_TAG_LEN as nat)
}

/// The cleaned name can be cut at `MAX_TAG_LEN` bytes between characters.
pub open spec fn tag_name_cut_ok(raw: Seq<char>) -> bool {
    cut_ok_at(tag_name_core(raw))
}

/// Whether `add_custom_tag` may be called with `raw`: its cleaned name can be
/// cut at `MAX_TAG_LEN` bytes between characters.
pub fn tag_name_ok(raw: &str) -> (r: bool)
    ensures
        r == tag_name_cut_ok(raw@),
{
    let core = tag_name_core_of(raw);
    cut_at_ok_exec(&core)
}

fn sanitize_tag_name(raw: &str) -> (r: CoreResult<String>)
    requires
        tag_name_cut_ok(raw@),
    ensures
        r matches Ok(s) && s@ == sanitized_tag(raw@),
{
    let core = tag_name_core_of(raw);
    let cut = truncate_chars(&core, MAX_TAG_LEN);
    Ok(string_from_chars(&cut))
}

fn tag_name_core_of(raw: &str) -> (core: Vec<char>)
    ensures
        core@ == tag_name_core(raw@),
{
    let v = chars_of(raw);
    let t = trim_chars(&v);
    let mut out: Vec<char> = Vec::new();
    let mut i: usize = 0;
    while i < t.len()
        invariant
            i <= t@.len(),
            out@ == collapse_spaces(blank_separators(t@).take(i as int)),
        decreases t@.len() - i,
    {
        let c = t[i];
        let c = if c == ',' || c == '\n' || c == '\r' { ' ' } else { c };
        let ghost b = blank_separators(t@);
        assert(b.take(i + 1).drop_last() =~= b.take(i as int));
        assert(b.take(i + 1).last() == c);
        if !(c == ' ' && out.len() > 0 && out[out.len() - 1] == ' ') {
            out.push(c);
        }
        i += 1;
    }
    assert(blank_separators(t@).take(t@.len() as int) =~= blank_separators(t@));
    trim_chars(&out)
}

/// Clean `new_tag` and append it unless it is empty or already present
/// (ignoring ASCII case); a full list is refused.
pub fn add_custom_tag<S: FileStorage>(storage: &mut S, store: &mut TagStore, new_tag: &str) -> (r:
    CoreResult<bool>)
    requires
        tag_name_cut_ok(new_tag@),
    ensures
        ({
            let c = sanitized_tag(new_tag@);
            if c.len() == 0 {
                r matches Ok(b) && !b && final(store)@ == old(store)@
            } else if old(store)@.len() >= MAX_TAGS {
                r matches Err(CoreError::TagLimitReached(n)) && n == MAX_TAGS && final(store)@
                    == old(store)@
            } else if contains_ic(old(store)@, c) {
                r matches Ok(b) && !b && final(store)@ == old(store)@
            } else {
                &&& final(store)@ == old(store)@.push(c)
                &&& (r matches Ok(b) ==> b)
                &&& (old(storage).reliable() ==> r == Ok::<bool, CoreError>(true))
            }
        }),
        r matches Ok(b) && b ==> final(storage).files() == after_atomic_write(
            old(storage).files(),
            TAG_FILE@,
            TAG_TMP@,
            encode_utf8(tags_text(final(store)@)),
        ),
        final(store)@ == old(store)@ ==> final(storage).files() == old(storage).files(),
        final(storage).reliable() == old(storage).reliable(),
{
    let clean = match sanitize_tag_name(new_tag) {
        Ok(c) => c,
        Err(e) => return Err(e),
    };
    if clean.as_str().is_empty() {
        return Ok(false);
    }
    if store.tags.len() >= MAX_TAGS {
        return Err(CoreError::TagLimitReached(MAX_TAGS));
    }
    if store.contains_ignore_case(clean.as_str()) {
        return Ok(false);
    }
    let ghost before = store@;
    let ghost cv = clean@;
    store.tags.push(clean);
    assert(store@ =~= before.push(cv));
    save_tags(storage, store)?;
    Ok(true)
}

/// Some note carries exactly `tag`.
pub open spec fn has_tag(es: Seq<NoteView>, tag: Seq<char>) -> bool {
    exists|i: int| 0 <= i < es.len() && (#[trigger] es[i]).1 == tag
}

pub fn tag_has_notes(store: &IndexStore, tag: &str) -> (r: bool)
    ensures
        r == has_tag(store@, tag@),
{
    let n = store.entries.len();
    let mut i: usize = 0;
    while i < n
        invariant
            n == store.entries@.len(),
            n == store@.len(),
            i <= n,
            forall|k: int| 0 <= k < i ==> (#[trigger] store@[k]).1 != tag@,
        decreases n - i,
    {
        assert(store@[i as int].1 == store.entries@[i as int].tag@);
        if str_eq(store.entries[i].tag.as_str(), tag) {
            assert(store@[i as int].1 == tag@);
            return true;
        }
        i += 1;
    }
    false
}

/// Retag every note tagged `old_tag` as `new_tag`, then persist the index.
pub fn replace_tag_on_notes<S: FileStorage>(
    storage: &mut S,
    index: &mut IndexStore,
    old_tag: &str,
    new_tag: &str,
) -> (r: CoreResult<()>)
    ensures
        final(index)@ == retag(old(index)@, old_tag@, new_tag@),
        r is Ok ==> final(storage).files() == after_atomic_write(
            old(storage).files(),
            INDEX_FILE@,
            INDEX_TMP@,
            encode_utf8(index_text(final(index)@)),
        ),
        old(storage).reliable() ==> r is Ok,
        final(storage).reliable() == old(storage).reliable(),
{
    index.replace_tag(old_tag, new_tag);
    save_index(storage, index)
}

/// The tag list after `delete_tag` has made room for `Untagged`.
pub open spec fn tags_with_untagged(tags: Seq<Seq<char>>, es: Seq<NoteView>, name: Seq<char>) -> Seq<Seq<char>> {
    if has_tag(es, name) && !contains_ic(tags, "Untagged"@) && tags.len() < MAX_TAGS {
        tags.push("Untagged"@)
    } else {
        tags
    }
}

/// The index after `delete_tag` has moved the tag's notes.
pub open spec fn index_after_delete(es: Seq<NoteView>, name: Seq<char>) -> Seq<NoteView> {
    if has_tag(es, name) {
        retag(es, name, "Untagged"@)
    } else {
        es
    }
}

/// The tag list and result of a successful `delete_tag` (when the name is not
/// `Untagged`).
pub open spec fn tags_after_delete(tags: Seq<Seq<char>>, es: Seq<NoteView>, name: Seq<char>) -> (Seq<Seq<char>>, bool) {
    let t1 = tags_with_untagged(tags, es, name);
    match first_hit(t1, name, false) {
        None => (t1, false),
        Some(i) => {
            let t2 = t1.remove(i);
            (if t2.len() == 0 { default_tags() } else { t2 }, true)
        },
    }
}

/// Delete a tag: its notes move to `Untagged` (added to the list when missing
/// and there is room); `Untagged` itself cannot be deleted. An emptied list
/// falls back to the defaults.
#[verifier::spinoff_prover]
#[verifier::rlimit(40)]
pub fn delete_tag<S: FileStorage>(
    storage: &mut S,
    tags: &mut TagStore,
    index: &mut IndexStore,
    tag_name: &str,
) -> (r: CoreResult<bool>)
    ensures
        eq_ignore_case(tag_name@, "Untagged"@) ==> (r matches Ok(b) && !b && final(tags)@ == old(
            tags,
        )@ && final(index)@ == old(index)@ && final(storage).files() == old(storage).files()),
        !eq_ignore_case(tag_name@, "Untagged"@) && old(storage).reliable() ==> r is Ok,
        final(storage).reliable() == old(storage).reliable(),
        !eq_ignore_case(tag_name@, "Untagged"@) ==> ({
            let (t2, b2) = tags_after_delete(old(tags)@, old(index)@, tag_name@);
            &&& final(index)@ == index_after_delete(old(index)@, tag_name@)
            &&& (r matches Ok(b) ==> b == b2 && final(tags)@ == t2)
            &&& (final(tags)@ == t2 || final(tags)@ == tags_with_untagged(
                old(tags)@,
                old(index)@,
                tag_name@,
            ))
        }),
        old(tags)@.len() <= MAX_TAGS ==> final(tags)@.len() <= MAX_TAGS,
{
    if str_eq_ignore_case(tag_name, "Untagged") {
        return Ok(false);
    }
    let had_notes = tag_has_notes(index, tag_name);
    if had_notes {
        if !tags.contains_ignore_case("Untagged") && tags.tags.len() < MAX_TAGS {
            let ghost before = tags@;
            let u = owned("Untagged");
            tags.tags.push(u);
            assert(tags@ =~= before.push("Untagged"@));
        }
        replace_tag_on_notes(storage, index, tag_name, "Untagged")?;
    }
    let remove_idx = match tags.index_of(tag_name) {
        Some(i) => i,
        None => return Ok(false),
    };
    let ghost before = tags@;
    tags.tags.remove(remove_idx);
    assert(tags@ =~= before.remove(remove_idx as int));
    if tags.tags.len() == 0 {
        create_default_tags(storage, tags)?;
    } else {
        save_tags(storage, tags)?;
    }
    Ok(true)
}

/// A tag list as the store keeps it: at most `MAX_TAGS` tags, each non-empty,
/// trimmed, on one line and at most `MAX_TAG_LEN` bytes, no two equal ignoring
/// ASCII case.
pub open spec fn tags_wf(ts: Seq<Seq<char>>) -> bool {
    &&& ts.len() <= MAX_TAGS
    &&& forall|i: int|
        0 <= i < ts.len() ==> {
            &&& (#[trigger] ts[i]).len() > 0
            &&& trim(ts[i]) == ts[i]
            &&& !ts[i].contains('\n')
            &&& utf8_len(ts[i]) <= MAX_TAG_LEN
        }
    &&& forall|i: int, j: int| 0 <= i < j < ts.len() ==> !eq_ignore_case(#[trigger] ts[i], #[trigger] ts[j])
}

proof fn lemma_tags_text_pieces(ts: Seq<Seq<char>>)
    requires
        forall|i: int| 0 <= i < ts.len() ==> (#[trigger] ts[i]).len() > 0 && !ts[i].contains('\n'),
    ensures
        pieces_fold(tags_text(ts)) == (ts, Seq::<char>::empty()),
    decreases ts.len(),
{
    if ts.len() > 0 {
        let p = ts.drop_last();
        let t = ts.last();
        assert(t == ts[ts.len() - 1]);
        lemma_tags_text_pieces(p);
        let x = tags_text(p);
        lemma_pieces_append_text(x, t);
        assert(Seq::<char>::empty() + t =~= t);
        let y = x + t + seq!['\n'];
        assert(y.drop_last() =~= x + t);
        assert(tags_text(ts) == y);
        assert(p.push(t) =~= ts);
    }
}

proof fn lemma_tags_fold_identity(ts: Seq<Seq<char>>)
    requires
        tags_wf(ts),
    ensures
        tags_fold(ts) == Some(ts),
    decreases ts.len(),
{
    if ts.len() > 0 {
        let p = ts.drop_last();
        let t = ts.last();
        assert(t == ts[ts.len() - 1]);
        assert(tags_wf(p)) by {
            assert forall|i: int| 0 <= i < p.len() implies #[trigger] p[i] == ts[i] by {}
            assert forall|i: int, j: int| 0 <= i < j < p.len() implies !eq_ignore_case(#[trigger] p[i], #[trigger] p[j]) by {
                assert(p[i] == ts[i] && p[j] == ts[j]);
            }
        }
        lemma_tags_fold_identity(p);
        assert(!contains_ic(p, t)) by {
            if contains_ic(p, t) {
                let i = choose|i: int| 0 <= i < p.len() && eq_ignore_case(#[trigger] p[i], t);
                assert(p[i] == ts[i]);
                assert(!eq_ignore_case(ts[i], ts[ts.len() - 1]));
            }
        }
        assert(truncate_bytes(t, MAX_TAG_LEN as nat) == t);
        assert(p.push(t) =~= ts);
    }
}

/// Reading back the text that `save_tags` writes for a well-formed list gives
/// the same list.
pub proof fn lemma_tags_text_roundtrip(ts: Seq<Seq<char>>)
    requires
        tags_wf(ts),
    ensures
        tags_fold(line_pieces(tags_text(ts))) == Some(ts),
{
    lemma_tags_text_pieces(ts);
    lemma_tags_fold_identity(ts);
}

/// Saving a well-formed, non-empty tag list and loading it back gives the
/// same list, and loading writes nothing.
pub proof fn lemma_tags_save_load(files: Map<Seq<char>, Seq<u8>>, ts: Seq<Seq<char>>)
    requires
        tags_wf(ts),
        ts.len() > 0,
    ensures
        ({
            let saved = after_atomic_write(files, TAG_FILE@, TAG_TMP@, encode_utf8(tags_text(ts)));
            &&& text_file_ok(saved, TAG_FILE@)
            &&& loaded_tags(file_text(saved, TAG_FILE@)) == Some(ts)
            &&& files_after_tag_load(saved) == saved
        }),
{
    broadcast use vstd::utf8::encode_utf8_decode_utf8, vstd::utf8::encode_utf8_valid_utf8;
    lemma_tags_text_roundtrip(ts);
}

} // verus!
