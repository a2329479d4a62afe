//! Per-note `.meta` files (`created_utc`, `tag`, `synced`) and local time labels.
use vstd::prelude::*;
use vstd::utf8::{encode_utf8, is_char_boundary};

use crate::error::CoreResult;
use crate::paths::{note_path, note_path_spec};
use crate::text::{
    chars_of, fmt_int, line_pieces, lines_of, owned, parse_i32, parse_i32_spec, push_int_padded,
    push_str, string_from_chars, trim, trim_chars, vec_views, is_ws, trim_start, trim_end,
    all_digits, digits_value, is_ascii_digit, parse_int, tdiv, pow10,
};

use super::index::{add_to_index, clean_tag_field, first_with_num, tag_cut_ok, IndexStore, NoteView};
use super::index::{index_text, text_view};
use super::{after_atomic_write, file_text, text_file_ok, FileStorage};
use crate::paths::{INDEX_FILE, INDEX_TMP};

verus! {

pub fn note_meta_path(num: i32) -> (p: String)
    ensures
        p@ == note_path_spec(num, "meta"@),
{
    note_path(num, "meta")
}

/// `line` begins with `prefix`.
pub open spec fn starts_with(line: Seq<char>, prefix: Seq<char>) -> bool {
    line.len() >= prefix.len() && line.subrange(0, prefix.len() as int) == prefix
}

/// The value after `prefix` on the first trimmed line that starts with it.
pub open spec fn meta_lookup(pieces: Seq<Seq<char>>, prefix: Seq<char>) -> Option<Seq<char>>
    decreases pieces.len(),
{
    if pieces.len() == 0 {
        None
    } else {
        let t = trim(pieces[0]);
        if starts_with(t, prefix) {
            Some(t.subrange(prefix.len() as int, t.len() as int))
        } else {
            meta_lookup(pieces.drop_first(), prefix)
        }
    }
}

fn starts_with_exec(line: &[char], prefix: &[char]) -> (r: bool)
    ensures
        r == starts_with(line@, prefix@),
{
    if line.len() < prefix.len() {
        return false;
    }
    let mut k: usize = 0;
    while k < prefix.len()
        invariant
            prefix@.len() <= line@.len(),
            k <= prefix@.len(),
            forall|j: int| 0 <= j < k ==> line@[j] == prefix@[j],
        decreases prefix@.len() - k,
    {
        if line[k] != prefix[k] {
            assert(line@.subrange(0, prefix@.len() as int)[k as int] != prefix@[k as int]);
            return false;
        }
        k += 1;
    }
    assert(line@.subrange(0, prefix@.len() as int) =~= prefix@);
    true
}

/// Value of `key` in a meta file's text.
pub fn meta_value_in(content: &str, key: &str) -> (r: Option<String>)
    ensures
        match meta_lookup(line_pieces(content@), key@ + seq!['=']) {
            Some(v) => r matches Some(s) && s@ == v,
            None => r is None,
        },
{
    let mut pv = chars_of(key);
    pv.push('=');
    let lines = lines_of(content);
    let ghost pieces = vec_views(lines@);
    let mut i: usize = 0;
    assert(pieces.skip(0) =~= pieces);
    while i < lines.len()
        invariant
            pieces == vec_views(lines@),
            pieces == line_pieces(content@),
            pv@ == key@ + seq!['='],
            pieces.len() == lines@.len(),
            i <= lines@.len(),
            meta_lookup(pieces, pv@) == meta_lookup(pieces.skip(i as int), pv@),
        decreases lines@.len() - i,
    {
        let t = trim_chars(&lines[i]);
        assert(pieces.skip(i as int)[0] == lines@[i as int]@);
        assert(pieces.skip(i as int).drop_first() =~= pieces.skip(i + 1));
        if starts_with_exec(&t, &pv) {
            let v = crate::text::slice_vec(&t, pv.len(), t.len());
            assert(t@ == trim(pieces.skip(i as int)[0]));
            assert(meta_lookup(pieces.skip(i as int), pv@) == Some(t@.subrange(pv@.len() as int, t@.len() as int)));
            let out = string_from_chars(&v);
            assert(meta_lookup(pieces, pv@) == Some(out@));
            assert(pieces == line_pieces(content@));
            assert(pv@ == key@ + seq!['=']);
            return Some(out);
        }
        i += 1;
    }
    None
}

/// The value of `key` in note `num`'s meta file as the files hold it (`None`
/// when the file or the key is missing).
pub open spec fn stored_meta_value(files: Map<Seq<char>, Seq<u8>>, num: i32, key: Seq<char>) -> Option<Seq<char>> {
    match file_text(files, note_path_spec(num, "meta"@)) {
        Some(c) => meta_lookup(line_pieces(c), key + seq!['=']),
        None => None,
    }
}

/// Read one `key=value` entry from the note's meta file (`None` when the file or
/// the key is missing).
pub fn read_note_meta_value<S: FileStorage>(storage: &S, num: i32, key: &str) -> (r: CoreResult<Option<String>>)
    ensures
        r matches Ok(o) ==> text_view(o) == stored_meta_value(storage.files(), num, key@),
        storage.reliable() && text_file_ok(storage.files(), note_path_spec(num, "meta"@)) ==> r is Ok,
{
    broadcast use vstd::utf8::encode_utf8_decode_utf8;

    let path = note_meta_path(num);
    let content = match storage.read_to_string(path.as_str())? {
        Some(c) => c,
        None => return Ok(None),
    };
    Ok(meta_value_in(content.as_str(), key))
}

/// The text of a meta file.
pub open spec fn meta_text_spec(created: Seq<char>, tag: Seq<char>, has_text: bool) -> Seq<char> {
    "created_utc="@ + created + seq!['\n'] + "tag="@ + tag + seq!['\n'] + "synced="@ + (if has_text {
        seq!['1']
    } else {
        seq!['0']
    }) + seq!['\n']
}

/// The text of a meta file.
pub fn meta_text(created: &str, tag: &str, has_text: bool) -> (s: String)
    ensures
        s@ == meta_text_spec(created@, tag@, has_text),
{
    let mut s = String::new();
    push_str(&mut s, "created_utc=");
    push_str(&mut s, created);
    crate::text::push_char(&mut s, '\n');
    push_str(&mut s, "tag=");
    push_str(&mut s, tag);
    crate::text::push_char(&mut s, '\n');
    push_str(&mut s, "synced=");
    crate::text::push_char(&mut s, if has_text { '1' } else { '0' });
    crate::text::push_char(&mut s, '\n');
    assert(s@ =~= meta_text_spec(created@, tag@, has_text));
    s
}

/// The `created_utc` a meta rewrite keeps: the given one, else the one on file,
/// else empty.
pub open spec fn kept_created(files: Map<Seq<char>, Seq<u8>>, num: i32, given: Option<&str>) -> Seq<char> {
    match given {
        Some(c) => c@,
        None => match stored_meta_value(files, num, "created_utc"@) {
            Some(e) => e,
            None => seq![],
        },
    }
}

/// The tag a meta rewrite writes: the given one, else empty.
pub open spec fn given_tag(tag: Option<&str>) -> Seq<char> {
    match tag {
        Some(t) => t@,
        None => seq![],
    }
}

/// The index's transcript flag for note `num` (false without a row).
pub open spec fn has_text_of(es: Seq<NoteView>, num: i32) -> bool {
    match first_with_num(es, num) {
        Some(i) => es[i].2,
        None => false,
    }
}

/// The files after note `num`'s meta file is rewritten.
pub open spec fn with_meta(
    files: Map<Seq<char>, Seq<u8>>,
    es: Seq<NoteView>,
    num: i32,
    tag: Option<&str>,
    created_utc: Option<&str>,
) -> Map<Seq<char>, Seq<u8>> {
    files.insert(
        note_path_spec(num, "meta"@),
        encode_utf8(meta_text_spec(kept_created(files, num, created_utc), given_tag(tag), has_text_of(es, num))),
    )
}

/// Write the note's meta file: the given `created_utc` (else the one on file, else
/// empty), the given tag (else empty) and the index's transcript flag.
pub fn write_note_meta<S: FileStorage>(
    storage: &mut S,
    index: &IndexStore,
    num: i32,
    tag: Option<&str>,
    created_utc: Option<&str>,
) -> (r: CoreResult<()>)
    ensures
        r is Ok ==> final(storage).files() == with_meta(old(storage).files(), index@, num, tag, created_utc),
        old(storage).reliable() && text_file_ok(old(storage).files(), note_path_spec(num, "meta"@)) ==> r is Ok,
        final(storage).reliable() == old(storage).reliable(),
{
    let existing = read_note_meta_value(storage, num, "created_utc")?;
    let created = match created_utc {
        Some(c) => owned(c),
        None => match existing {
            Some(e) => e,
            None => String::new(),
        },
    };
    let tag_str = match tag {
        Some(t) => t,
        None => "",
    };
    let has_text = match index.find(num) {
        Some(e) => e.has_text,
        None => false,
    };
    proof {
        reveal_strlit("");
        assert(created@ == kept_created(old(storage).files(), num, created_utc));
        assert(tag_str@ == given_tag(tag));
        assert(has_text == has_text_of(index@, num));
    }
    let content = meta_text(created.as_str(), tag_str, has_text);
    let path = note_meta_path(num);
    storage.write_string(path.as_str(), content.as_str())
}

/// Tag a note: rewrite its meta file, then append an index row for it.
pub fn save_tag<S: FileStorage>(storage: &mut S, index: &mut IndexStore, num: i32, tag: &str) -> (r: CoreResult<()>)
    requires
        tag_cut_ok(tag@),
    ensures
        r is Ok ==> (clean_tag_field(tag@) matches Some(t) && final(index)@ == old(index)@.push(
            (num, t, false),
        )),
        final(index)@ == old(index)@ || (clean_tag_field(tag@) matches Some(t) && final(index)@
            == old(index)@.push((num, t, false))),
        r is Ok ==> final(storage).files() == after_atomic_write(
            with_meta(old(storage).files(), old(index)@, num, Some(tag), None),
            INDEX_FILE@,
            INDEX_TMP@,
            encode_utf8(index_text(final(index)@)),
        ),
        old(storage).reliable() && text_file_ok(old(storage).files(), note_path_spec(num, "meta"@))
            && clean_tag_field(tag@) is Some ==> r is Ok,
        final(storage).reliable() == old(storage).reliable(),
{
    write_note_meta(storage, index, num, Some(tag), None)?;
    add_to_index(storage, index, num, tag, false)
}

/// A value that reads back unchanged from its meta line: no newline, and
/// nothing a trim would remove at its end.
pub open spec fn meta_safe(v: Seq<char>) -> bool {
    !v.contains('\n') && (v.len() == 0 || !is_ws(v.last()))
}

proof fn lemma_no_nl_concat(a: Seq<char>, b: Seq<char>)
    requires
        !a.contains('\n'),
        !b.contains('\n'),
    ensures
        !(a + b).contains('\n'),
{
    if (a + b).contains('\n') {
        let k = choose|k: int| 0 <= k < (a + b).len() && (a + b)[k] == '\n';
        if k < a.len() {
            assert(a[k] == '\n');
        } else {
            assert(b[k - a.len()] == '\n');
        }
    }
}

proof fn lemma_line_value(prefix: Seq<char>, v: Seq<char>)
    requires
        prefix.len() > 0,
        !is_ws(prefix[0]),
        !is_ws(prefix.last()),
        meta_safe(v),
    ensures
        trim(prefix + v) == prefix + v,
        starts_with(prefix + v, prefix),
        (prefix + v).subrange(prefix.len() as int, (prefix + v).len() as int) == v,
{
    let l = prefix + v;
    assert(l[0] == prefix[0]);
    assert(trim_start(l) == l);
    if v.len() == 0 {
        assert(l.last() == prefix.last());
    } else {
        assert(l.last() == v.last());
    }
    assert(trim_end(l) == l);
    assert(l.subrange(0, prefix.len() as int) =~= prefix);
    assert(l.subrange(prefix.len() as int, l.len() as int) =~= v);
}

/// Reading back a meta file `write_note_meta` wrote gives the values written.
pub proof fn lemma_meta_read_after_write(created: Seq<char>, tag: Seq<char>, has_text: bool)
    requires
        meta_safe(created),
        meta_safe(tag),
    ensures
        meta_lookup(line_pieces(meta_text_spec(created, tag, has_text)), "created_utc="@ ) == Some(created),
        meta_lookup(line_pieces(meta_text_spec(created, tag, has_text)), "tag="@) == Some(tag),
{
    reveal_strlit("created_utc=");
    reveal_strlit("tag=");
    reveal_strlit("synced=");
    let c = "created_utc="@;
    let t = "tag="@;
    let sy = "synced="@;
    let b: Seq<char> = if has_text { seq!['1'] } else { seq!['0'] };
    let l1 = c + created;
    let l2 = t + tag;
    let l3 = sy + b;
    assert(!c.contains('\n')) by {
        if c.contains('\n') {
            let k = choose|k: int| 0 <= k < c.len() && c[k] == '\n';
        }
    }
    assert(!t.contains('\n')) by {
        if t.contains('\n') {
            let k = choose|k: int| 0 <= k < t.len() && t[k] == '\n';
        }
    }
    assert(!sy.contains('\n')) by {
        if sy.contains('\n') {
            let k = choose|k: int| 0 <= k < sy.len() && sy[k] == '\n';
        }
    }
    assert(!b.contains('\n')) by {
        if b.contains('\n') {
            let k = choose|k: int| 0 <= k < b.len() && b[k] == '\n';
        }
    }
    lemma_no_nl_concat(c, created);
    lemma_no_nl_concat(t, tag);
    lemma_no_nl_concat(sy, b);
    let text = meta_text_spec(created, tag, has_text);
    assert(text =~= l1 + seq!['\n'] + l2 + seq!['\n'] + l3 + seq!['\n']);
    crate::text::lemma_lines_of_three(l1, l2, l3);
    let p = line_pieces(text);
    assert(p == seq![l1, l2, l3]);
    lemma_line_value(c, created);
    lemma_line_value(t, tag);
    assert(meta_lookup(p, c) == Some(created));
    assert(!starts_with(trim(l1), t)) by {
        assert(trim(l1)[0] == 'c');
        assert(t[0] == 't');
        if starts_with(trim(l1), t) {
            assert(trim(l1).subrange(0, t.len() as int)[0] == t[0]);
        }
    }
    assert(p.drop_first() =~= seq![l2, l3]);
    assert(meta_lookup(p.drop_first(), t) == Some(tag));
}

/// Days since 1970-01-01 for a civil date (the code's own arithmetic).
pub open spec fn days_from_civil(year: int, month: int, day: int) -> int {
    let y = if month <= 2 { year - 1 } else { year };
    let m = if month <= 2 { month + 12 } else { month };
    let era = tdiv(y, 400);
    let yoe = y - era * 400;
    let doy = tdiv(153 * (m - 3) + 2, 5) + day - 1;
    let doe = yoe * 365 + tdiv(yoe, 4) - tdiv(yoe, 100) + doy;
    era * 146097 + doe - 719468
}

/// Civil `(year, month, day)` of seconds since the epoch (the code's own arithmetic).
pub open spec fn civil_of(epoch: int) -> (int, int, int) {
    let z = tdiv(epoch, 86400) + 719468;
    let era = tdiv(if z >= 0 { z } else { z - 146096 }, 146097);
    let doe = z - era * 146097;
    let yoe = tdiv(doe - tdiv(doe, 1460) + tdiv(doe, 36524) - tdiv(doe, 146096), 365);
    let y = (yoe + era * 400) as i32;
    let doy = doe - (365 * yoe + tdiv(yoe, 4) - tdiv(yoe, 100));
    let mp = tdiv(5 * doy + 2, 153);
    let d = (doy - tdiv(153 * mp + 2, 5) + 1) as i32;
    let m = (mp + if mp < 10 { 3int } else { -9int }) as i32;
    let year = y + if m <= 2 { 1int } else { 0int };
    (year, m as int, d as int)
}

/// `YYYY-MM-DD HH:MM` for seconds since the epoch.
pub open spec fn epoch_label_spec(epoch: int) -> Seq<char> {
    let (year, m, d) = civil_of(epoch);
    let secs = epoch % 86400;
    let hour = secs / 3600;
    let minute = (secs % 3600) / 60;
    fmt_int(year, 4) + seq!['-'] + fmt_int(m, 2) + seq!['-'] + fmt_int(d, 2) + seq![' ']
        + fmt_int(hour, 2) + seq![':'] + fmt_int(minute, 2)
}

/// Integer field of the ISO text in bytes `[lo, hi)`, or `default`.
pub open spec fn iso_field(b: Seq<u8>, lo: int, hi: int, default: int) -> int {
    match parse_i32_spec(b.subrange(lo, hi).map_values(|x: u8| x as char)) {
        Some(v) => v as int,
        None => default,
    }
}

/// The field cuts of `YYYY-MM-DDTHH:MM` fall between characters.
pub open spec fn iso_cuts_ok(s: Seq<char>) -> bool {
    let b = encode_utf8(s);
    b.len() >= 16 ==> (is_char_boundary(b, 4) && is_char_boundary(b, 5) && is_char_boundary(b, 7)
        && is_char_boundary(b, 8) && is_char_boundary(b, 10) && is_char_boundary(b, 11)
        && is_char_boundary(b, 13) && is_char_boundary(b, 14) && is_char_boundary(b, 16))
}

/// Local label of a UTC ISO time shifted by `offset_min` minutes.
pub open spec fn local_label_spec(s: Seq<char>, offset_min: i32) -> Seq<char> {
    let b = encode_utf8(s);
    if b.len() < 16 {
        "time not set"@
    } else {
        let epoch = days_from_civil(
            iso_field(b, 0, 4, 0),
            iso_field(b, 5, 7, 1),
            iso_field(b, 8, 10, 1),
        ) * 86400 + iso_field(b, 11, 13, 0) * 3600 + iso_field(b, 14, 16, 0) * 60;
        epoch_label_spec(epoch + offset_min * 60)
    }
}

proof fn lemma_digits_bound(s: Seq<char>)
    requires
        all_digits(s),
    ensures
        digits_value(s) < pow10(s.len()),
    decreases s.len(),
{
    if s.len() > 0 {
        let t = s.drop_last();
        assert(all_digits(t)) by {
            assert forall|i: int| 0 <= i < t.len() implies is_ascii_digit(#[trigger] t[i]) by {
                assert(t[i] == s[i]);
            }
        }
        lemma_digits_bound(t);
        assert(is_ascii_digit(s[s.len() - 1]));
    }
}

proof fn lemma_parse_bound(s: Seq<char>)
    requires
        s.len() <= 4,
    ensures
        parse_int(s) matches Some(v) ==> -10000 < v < 10000,
{
    assert(pow10(4) == 10000) by {
        reveal_with_fuel(pow10, 5);
    }
    if s.len() > 0 {
        let rest = s.drop_first();
        if (s[0] == '-' || s[0] == '+') && rest.len() > 0 && all_digits(rest) {
            lemma_digits_bound(rest);
            assert(pow10(rest.len()) <= pow10(4)) by {
                reveal_with_fuel(pow10, 5);
            }
        } else if all_digits(s) {
            lemma_digits_bound(s);
            assert(pow10(s.len()) <= pow10(4)) by {
                reveal_with_fuel(pow10, 5);
            }
        }
    }
}

fn field(b: &[u8], lo: usize, hi: usize, default: i32) -> (v: i32)
    requires
        lo <= hi <= b@.len(),
        hi - lo <= 4,
    ensures
        v == iso_field(b@, lo as int, hi as int, default as int),
        v == default || -10000 < v < 10000,
{
    let mut cs: Vec<char> = Vec::new();
    let mut i = lo;
    while i < hi
        invariant
            lo <= i <= hi <= b@.len(),
            cs@ == b@.subrange(lo as int, i as int).map_values(|x: u8| x as char),
        decreases hi - i,
    {
        cs.push(b[i] as char);
        i += 1;
        assert(cs@ =~= b@.subrange(lo as int, i as int).map_values(|x: u8| x as char));
    }
    proof {
        lemma_parse_bound(cs@);
    }
    match parse_i32(&cs) {
        Some(v) => v,
        None => default,
    }
}

fn tdiv_i64(a: i64, b: i64) -> (q: i64)
    requires
        b > 0,
    ensures
        q == tdiv(a as int, b as int),
        a >= 0 ==> 0 <= q <= a && 0 <= q * b <= a,
        a < 0 ==> a <= q <= 0 && a <= q * b <= 0,
{
    let q = a / b;
    proof {
        if a >= 0 {
            assert(0 <= q <= a && 0 <= q * b <= a) by (nonlinear_arith)
                requires
                    a >= 0,
                    b > 0,
                    q == a / b,
            ;
        } else {
            assert(q == -((-(a as int)) / (b as int)));
            let p: int = (-(a as int)) / (b as int);
            assert(0 <= p <= -a && 0 <= p * b <= -a) by (nonlinear_arith)
                requires
                    -(a as int) > 0,
                    b > 0,
                    p == (-(a as int)) / (b as int),
            ;
            assert(q * b == -(p * b)) by (nonlinear_arith)
                requires
                    q == -p,
            ;
        }
    }
    q
}

/// Convert UTC ISO `YYYY-MM-DDTHH:MM:SSZ` to local device label.
pub fn utc_to_local_device_label(utc_iso: &str, offset_min: i32) -> (label: String)
    requires
        iso_cuts_ok(utc_iso@),
    ensures
        label@ == local_label_spec(utc_iso@, offset_min),
{
    let b = utc_iso.as_bytes();
    if b.len() < 16 {
        return owned("time not set");
    }
    let year = field(b, 0, 4, 0);
    let month = field(b, 5, 7, 1);
    let day = field(b, 8, 10, 1);
    let hour = field(b, 11, 13, 0);
    let minute = field(b, 14, 16, 0);
    let epoch_utc = utc_to_epoch(year, month, day, hour, minute);
    let epoch_local = epoch_utc + (offset_min as i64) * 60;
    epoch_to_label(epoch_local)
}

fn utc_to_epoch(year: i32, month: i32, day: i32, hour: i32, minute: i32) -> (e: i64)
    requires
        -10000 <= year <= 10000,
        -10000 <= month <= 10000,
        -10000 <= day <= 10000,
        -10000 <= hour <= 10000,
        -10000 <= minute <= 10000,
    ensures
        e == days_from_civil(year as int, month as int, day as int) * 86400 + hour * 3600 + minute * 60,
        -1_000_000_000_000 <= e <= 1_000_000_000_000,
{
    let mut y = year as i64;
    let mut m = month as i64;
    if m <= 2 {
        y -= 1;
        m += 12;
    }
    let era = tdiv_i64(y, 400);
    let yoe = y - era * 400;
    let doy = tdiv_i64(153 * (m - 3) + 2, 5) + day as i64 - 1;
    let doe = yoe * 365 + tdiv_i64(yoe, 4) - tdiv_i64(yoe, 100) + doy;
    let epoch_days = era * 146097 + doe - 719468;
    epoch_days * 86400 + (hour as i64) * 3600 + (minute as i64) * 60
}

fn civil_from_epoch(epoch: i64) -> (r: (i64, i64, i64))
    requires
        -10_000_000_000_000 <= epoch <= 10_000_000_000_000,
    ensures
        (r.0 as int, r.1 as int, r.2 as int) == civil_of(epoch as int),
{
    let z = tdiv_i64(epoch, 86400) + 719468;
    let era = tdiv_i64(if z >= 0 { z } else { z - 146096 }, 146097);
    let doe = z - era * 146097;
    let q1 = tdiv_i64(doe, 1460);
    let q2 = tdiv_i64(doe, 36524);
    let q3 = tdiv_i64(doe, 146096);
    let yoe = tdiv_i64(doe - q1 + q2 - q3, 365);
    let y = (yoe + era * 400) as i32;
    let doy = doe - (365 * yoe + tdiv_i64(yoe, 4) - tdiv_i64(yoe, 100));
    let mp = tdiv_i64(5 * doy + 2, 153);
    let d = (doy - tdiv_i64(153 * mp + 2, 5) + 1) as i32;
    let m = (mp + if mp < 10 { 3 } else { -9 }) as i32;
    let year = y as i64 + if m <= 2 { 1 } else { 0 };
    (year, m as i64, d as i64)
}

fn clock_of(epoch: i64) -> (r: (i64, i64))
    ensures
        r.0 == (epoch as int % 86400) / 3600,
        r.1 == ((epoch as int % 86400) % 3600) / 60,
{
    let secs = epoch % 86400;
    let secs = if secs < 0 { secs + 86400 } else { secs };
    assert(secs == (epoch as int) % 86400);
    (secs / 3600, (secs % 3600) / 60)
}

fn epoch_to_label(epoch: i64) -> (label: String)
    requires
        -10_000_000_000_000 <= epoch <= 10_000_000_000_000,
    ensures
        label@ == epoch_label_spec(epoch as int),
{
    let (year, m, d) = civil_from_epoch(epoch);
    let (hour, minute) = clock_of(epoch);
    let mut out = String::new();
    push_int_padded(&mut out, year, 4);
    crate::text::push_char(&mut out, '-');
    push_int_padded(&mut out, m, 2);
    crate::text::push_char(&mut out, '-');
    push_int_padded(&mut out, d, 2);
    crate::text::push_char(&mut out, ' ');
    push_int_padded(&mut out, hour, 2);
    crate::text::push_char(&mut out, ':');
    push_int_padded(&mut out, minute, 2);
    assert(out@ =~= epoch_label_spec(epoch as int));
    out
}

/// A Gregorian leap year.
pub open spec fn is_leap_year(y: int) -> bool {
    y % 4 == 0 && (y % 100 != 0 || y % 400 == 0)
}

/// Days in month `m` (1 to 12) of year `y`.
pub open spec fn days_in_month(y: int, m: int) -> int {
    if m == 2 {
        if is_leap_year(y) { 29 } else { 28 }
    } else if m == 4 || m == 6 || m == 9 || m == 11 {
        30
    } else {
        31
    }
}

/// `x / d == q` when `x` lies in `[q·d, q·d + d)`.
proof fn lemma_div_is(x: int, d: int, q: int)
    requires
        d > 0,
        q * d <= x < q * d + d,
    ensures
        x / d == q,
        x % d == x - q * d,
{
    vstd::arithmetic::div_mod::lemma_fundamental_div_mod_converse(x, d, q, x - q * d);
}

/// Day of the March-based year on which month `k` (0 = March) starts.
spec fn march_start(k: int) -> int {
    if k == 0 { 0 } else if k == 1 { 31 } else if k == 2 { 61 } else if k == 3 { 92 } else if k == 4 { 122 }
    else if k == 5 { 153 } else if k == 6 { 184 } else if k == 7 { 214 } else if k == 8 { 245 }
    else if k == 9 { 275 } else if k == 10 { 306 } else { 337 }
}

/// The month `k` days into a March-based year, as the calendar numbers it.
spec fn calendar_month(k: int) -> int {
    if k < 10 { k + 3 } else { k - 9 }
}

/// Reading a day of the March-based year back: month `k` and day `d` of a
/// valid date give the day `doy`, from which the month and day come back.
proof fn lemma_month_of_doy(k: int, d: int, y: int)
    requires
        0 <= k <= 11,
        1 <= d <= days_in_month(y, calendar_month(k)),
    ensures
        tdiv(153 * k + 2, 5) == march_start(k),
        ({
            let doy = march_start(k) + d - 1;
            &&& 0 <= doy <= 365
            &&& (doy == 365 ==> k == 11 && d == 29 && is_leap_year(y))
            &&& tdiv(5 * doy + 2, 153) == k
            &&& doy - tdiv(153 * k + 2, 5) + 1 == d
        }),
{
    lemma_div_is(153 * k + 2, 5, march_start(k));
    let doy = march_start(k) + d - 1;
    lemma_div_is(5 * doy + 2, 153, k);
}

/// `x` split by `d`: quotient and remainder in range.
proof fn lemma_split(x: int, d: int)
    requires
        0 <= x,
        0 < d,
    ensures
        x == d * (x / d) + x % d,
        0 <= x % d < d,
        0 <= x / d,
{
    vstd::arithmetic::div_mod::lemma_fundamental_div_mod(x, d);
    vstd::arithmetic::div_mod::lemma_mod_pos_bound(x, d);
    if x / d < 0 {
        assert(d * (x / d) <= -d) by (nonlinear_arith)
            requires
                x / d < 0,
                d > 0,
        ;
    }
}

/// Within a 400-year era, day `doy` of the era's year `yoe` counts `doe`
/// days from the era's start, and the year comes back from `doe`.
proof fn lemma_year_of_era(yoe: int, doy: int)
    requires
        0 <= yoe <= 399,
        0 <= doy <= 365,
        doy == 365 ==> (yoe + 1) % 4 == 0 && ((yoe + 1) % 100 != 0 || yoe + 1 == 400),
    ensures
        ({
            let doe = yoe * 365 + tdiv(yoe, 4) - tdiv(yoe, 100) + doy;
            &&& 0 <= doe <= 146096
            &&& tdiv(doe - tdiv(doe, 1460) + tdiv(doe, 36524) - tdiv(doe, 146096), 365) == yoe
        }),
{
    lemma_split(yoe, 100);
    let a = yoe / 100;
    let r = yoe % 100;
    lemma_split(r, 4);
    let b = r / 4;
    let c = r % 4;
    assert(yoe == 100 * a + 4 * b + c);
    assert(0 <= a <= 3);
    lemma_div_is(yoe, 4, 25 * a + b);
    lemma_div_is(yoe, 100, a);
    if doy == 365 {
        if c != 3 {
            lemma_div_is(yoe + 1, 4, 25 * a + b);
        }
        if b == 24 && c == 3 {
            lemma_div_is(yoe + 1, 100, a + 1);
        }
    }
    let doe = yoe * 365 + tdiv(yoe, 4) - tdiv(yoe, 100) + doy;
    assert(doe == 36524 * a + 1461 * b + 365 * c + doy);
    let big = 24 * a + b + 365 * c + doy;
    if big < 1460 {
        lemma_div_is(doe, 1460, 25 * a + b);
    } else {
        lemma_div_is(doe, 1460, 25 * a + b + 1);
    }
    let r1 = 1461 * b + 365 * c + doy;
    if r1 < 36524 {
        lemma_div_is(doe, 36524, a);
        lemma_div_is(doe, 146096, 0);
    } else {
        assert(a == 3 && b == 24 && c == 3 && doy == 365);
        lemma_div_is(doe, 36524, a + 1);
        lemma_div_is(doe, 146096, 1);
    }
    let l = doe - tdiv(doe, 1460) + tdiv(doe, 36524) - tdiv(doe, 146096);
    assert(l == 365 * yoe + doy - (if big < 1460 { 0int } else { 1int }));
    lemma_div_is(l, 365, yoe);
}

/// With no offset, a valid UTC date and time from 1970 on reads back as itself:
/// the seconds `days_from_civil` and the clock give for `y-m-d h:mi` are
/// labelled with the same year, month, day, hour and minute.
pub proof fn lemma_civil_round_trip(y: int, m: int, d: int, h: int, mi: int)
    requires
        1970 <= y <= 9999,
        1 <= m <= 12,
        1 <= d <= days_in_month(y, m),
        0 <= h < 24,
        0 <= mi < 60,
    ensures
        ({
            let e = days_from_civil(y, m, d) * 86400 + h * 3600 + mi * 60;
            &&& civil_of(e) == (y, m, d)
            &&& (e % 86400) / 3600 == h
            &&& ((e % 86400) % 3600) / 60 == mi
            &&& epoch_label_spec(e) == fmt_int(y, 4) + seq!['-'] + fmt_int(m, 2) + seq!['-'] + fmt_int(d, 2)
                + seq![' '] + fmt_int(h, 2) + seq![':'] + fmt_int(mi, 2)
        }),
{
    let y1 = if m <= 2 { y - 1 } else { y };
    let m1 = if m <= 2 { m + 12 } else { m };
    let k = m1 - 3;
    assert(calendar_month(k) == m);
    lemma_split(y1, 400);
    let era = y1 / 400;
    let yoe = y1 % 400;
    assert(tdiv(y1, 400) == era);
    assert(y1 - era * 400 == yoe);
    assert(era >= 4);
    lemma_month_of_doy(k, d, y);
    let doy = march_start(k) + d - 1;
    assert(tdiv(153 * (m1 - 3) + 2, 5) + d - 1 == doy);
    if doy == 365 {
        let w = yoe + 1;
        assert(m == 2 && y == y1 + 1 && is_leap_year(y));
        lemma_split(w, 4);
        lemma_div_is(y, 4, 100 * era + w / 4);
        lemma_split(w, 100);
        lemma_div_is(y, 100, 4 * era + w / 100);
        if w < 400 {
            lemma_div_is(y, 400, era);
            lemma_div_is(w, 400, 0);
        }
    }
    lemma_year_of_era(yoe, doy);
    let doe = yoe * 365 + tdiv(yoe, 4) - tdiv(yoe, 100) + doy;
    let days = era * 146097 + doe - 719468;
    assert(days == days_from_civil(y, m, d));
    assert(days >= 0) by {
        if era == 4 {
            lemma_div_is(yoe, 100, 3);
            if yoe == 369 {
                assert(k >= 10);
            }
            assert(tdiv(yoe, 4) >= 92) by {
                lemma_split(yoe, 4);
            }
        }
    }
    let t = h * 3600 + mi * 60;
    let e = days * 86400 + t;
    lemma_div_is(e, 86400, days);
    assert(tdiv(e, 86400) == days);
    assert(e % 86400 == t);
    lemma_div_is(t, 3600, h);
    lemma_div_is(mi * 60, 60, mi);
    let z = days + 719468;
    lemma_div_is(z, 146097, era);
    assert(tdiv(if z >= 0 { z } else { z - 146096 }, 146097) == era);
    assert(z - era * 146097 == doe);
    assert(yoe + era * 400 == y1);
    assert(doe - (365 * yoe + tdiv(yoe, 4) - tdiv(yoe, 100)) == doy);
}

} // verus!
