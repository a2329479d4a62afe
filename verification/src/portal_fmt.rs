//! Portal HTML helpers: escaping, URL decoding and the text export.
use vstd::prelude::*;
use vstd::utf8::{encode_utf8, is_char_boundary};

use crate::upi::{encode_byte, hex_upper, is_unreserved, url_encode_spec};
use crate::text::{
    byte_len, chars_of, fmt_int, owned, push_char, push_int_padded, push_str, str_eq, utf8_len,
};

verus! {

pub const EXPORT_MAX_BYTES: usize = 55_000;

/// HTML escape of one character.
pub open spec fn escape_char(c: char) -> Seq<char> {
    if c == '&' {
        "&amp;"@
    } else if c == '<' {
        "&lt;"@
    } else if c == '>' {
        "&gt;"@
    } else if c == '"' {
        "&quot;"@
    } else {
        seq![c]
    }
}

/// HTML escape of a character sequence.
pub open spec fn html_escape_spec(s: Seq<char>) -> Seq<char>
    decreases s.len(),
{
    if s.len() == 0 {
        seq![]
    } else {
        html_escape_spec(s.drop_last()) + escape_char(s.last())
    }
}

/// Escaped text carries no markup: no `<`, `>` or `"` survives escaping.
pub proof fn lemma_escaped_has_no_markup(s: Seq<char>)
    ensures
        forall|i: int|
            0 <= i < html_escape_spec(s).len() ==> {
                let c = #[trigger] html_escape_spec(s)[i];
                c != '<' && c != '>' && c != '"'
            },
    decreases s.len(),
{
    reveal_strlit("&amp;");
    reveal_strlit("&lt;");
    reveal_strlit("&gt;");
    reveal_strlit("&quot;");
    if s.len() > 0 {
        lemma_escaped_has_no_markup(s.drop_last());
        let a = html_escape_spec(s.drop_last());
        let b = escape_char(s.last());
        assert forall|i: int| 0 <= i < (a + b).len() implies {
            let c = #[trigger] (a + b)[i];
            c != '<' && c != '>' && c != '"'
        } by {
            if i < a.len() {
                assert((a + b)[i] == a[i]);
            } else {
                assert((a + b)[i] == b[i - a.len()]);
            }
        }
    }
}

/// Escape HTML special characters for portal output.
pub fn html_escape(s: &str) -> (out: String)
    ensures
        out@ == html_escape_spec(s@),
{
    let v = chars_of(s);
    let mut out = String::new();
    for i in 0..v.len()
        invariant
            out@ == html_escape_spec(v@.take(i as int)),
    {
        let ch = v[i];
        assert(v@.take(i + 1).drop_last() =~= v@.take(i as int));
        if ch == '&' {
            push_str(&mut out, "&amp;");
        } else if ch == '<' {
            push_str(&mut out, "&lt;");
        } else if ch == '>' {
            push_str(&mut out, "&gt;");
        } else if ch == '"' {
            push_str(&mut out, "&quot;");
        } else {
            push_char(&mut out, ch);
        }
        assert(out@ =~= html_escape_spec(v@.take(i + 1)));
    }
    assert(v@.take(v@.len() as int) =~= v@);
    out
}

#[derive(Debug, Clone, PartialEq, Eq)]
pub struct ExportNote {
    pub num: i32,
    pub tag: String,
    pub created_utc: Option<String>,
    pub transcript: String,
    pub has_text: bool,
}

/// `#NNN · tag\n`.
pub open spec fn note_heading_spec(num: i32, tag: Seq<char>) -> Seq<char> {
    "#"@ + fmt_int(num as int, 3) + " · "@ + tag + "\n"@
}

pub open spec fn export_header(filter: Seq<char>) -> Seq<char> {
    "Zoop Export\nFilter: "@ + filter + "\n------------------------------\n\n"@
}

pub open spec fn rule_line() -> Seq<char> {
    "\n\n------------------------------\n\n"@
}

pub open spec fn truncation_note() -> Seq<char> {
    "\nExport truncated on device because it became too large.\n"@
}

/// Transcript shown for a note (placeholders when empty).
pub open spec fn shown_transcript(n: ExportNote) -> Seq<char> {
    if n.transcript@.len() == 0 {
        if n.has_text {
            "(empty transcript)"@
        } else {
            "Not transcribed yet."@
        }
    } else {
        n.transcript@
    }
}

/// One note's block in the export.
pub open spec fn note_block(n: ExportNote) -> Seq<char> {
    note_heading_spec(n.num, n.tag@) + (match n.created_utc {
        Some(u) => if u@.len() > 0 {
            u@ + "\n"@
        } else {
            seq![]
        },
        None => seq![],
    }) + "\n"@ + shown_transcript(n) + rule_line()
}

/// The note passes the tag filter (`All` passes every note).
pub open spec fn passes_filter(filter: Seq<char>, n: ExportNote) -> bool {
    filter == "All"@ || filter == n.tag@
}

/// Export text continuing from `acc` with `notes[..k]`, newest (highest index) first,
/// stopping with the truncation note once the text passes the size limit.
pub open spec fn export_from(acc: Seq<char>, notes: Seq<ExportNote>, k: int, filter: Seq<char>) -> Seq<char>
    decreases k,
{
    if k <= 0 {
        acc
    } else {
        let n = notes[k - 1];
        if !passes_filter(filter, n) {
            export_from(acc, notes, k - 1, filter)
        } else {
            let acc2 = acc + note_block(n);
            if utf8_len(acc2) > EXPORT_MAX_BYTES {
                acc2 + truncation_note()
            } else {
                export_from(acc2, notes, k - 1, filter)
            }
        }
    }
}

fn note_block_exec(note: &ExportNote) -> (b: String)
    ensures
        b@ == note_block(*note),
{
    let mut b = format_note_heading(note.num, note.tag.as_str());
    match &note.created_utc {
        Some(utc) => {
            if !utc.as_str().is_empty() {
                push_str(&mut b, utc.as_str());
                push_str(&mut b, "\n");
            }
        },
        None => {},
    }
    push_str(&mut b, "\n");
    if note.transcript.as_str().is_empty() {
        if note.has_text {
            push_str(&mut b, "(empty transcript)");
        } else {
            push_str(&mut b, "Not transcribed yet.");
        }
    } else {
        push_str(&mut b, note.transcript.as_str());
    }
    push_str(&mut b, "\n\n------------------------------\n\n");
    assert(b@ =~= note_block(*note));
    b
}

/// Build the bulk `.txt` export, truncated at 55 KB.
/// The blocks of the notes among `notes[lo..hi]` that pass the filter, newest
/// (highest index) first.
pub open spec fn blocks_between(notes: Seq<ExportNote>, hi: int, lo: int, filter: Seq<char>) -> Seq<char>
    decreases hi - lo,
{
    if hi <= lo {
        seq![]
    } else if passes_filter(filter, notes[hi - 1]) {
        note_block(notes[hi - 1]) + blocks_between(notes, hi - 1, lo, filter)
    } else {
        blocks_between(notes, hi - 1, lo, filter)
    }
}

/// The blocks of the notes among `notes[..k]` that pass the filter, newest
/// (highest index) first.
pub open spec fn shown_blocks(notes: Seq<ExportNote>, k: int, filter: Seq<char>) -> Seq<char> {
    blocks_between(notes, k, 0, filter)
}

proof fn lemma_export_fits(acc: Seq<char>, notes: Seq<ExportNote>, k: int, filter: Seq<char>)
    requires
        0 <= k <= notes.len(),
        utf8_len(acc + shown_blocks(notes, k, filter)) <= EXPORT_MAX_BYTES,
    ensures
        export_from(acc, notes, k, filter) == acc + shown_blocks(notes, k, filter),
    decreases k,
{
    if k > 0 {
        let n = notes[k - 1];
        if passes_filter(filter, n) {
            let acc2 = acc + note_block(n);
            let rest = shown_blocks(notes, k - 1, filter);
            assert(acc + shown_blocks(notes, k, filter) =~= acc2 + rest);
            crate::text::lemma_utf8_len_concat(acc2, rest);
            lemma_export_fits(acc2, notes, k - 1, filter);
        } else {
            lemma_export_fits(acc, notes, k - 1, filter);
        }
    } else {
        assert(acc + shown_blocks(notes, k, filter) =~= acc);
    }
}

/// The export text starts with its header, whatever the notes.
pub proof fn lemma_export_header(notes: Seq<ExportNote>, filter: Seq<char>)
    ensures
        export_header(filter).is_prefix_of(export_from(export_header(filter), notes, notes.len() as int, filter)),
{
    lemma_export_extends(export_header(filter), notes, notes.len() as int, filter);
}

proof fn lemma_export_extends(acc: Seq<char>, notes: Seq<ExportNote>, k: int, filter: Seq<char>)
    ensures
        acc.is_prefix_of(export_from(acc, notes, k, filter)),
    decreases k,
{
    if k > 0 {
        let n = notes[k - 1];
        if passes_filter(filter, n) {
            let acc2 = acc + note_block(n);
            assert(acc.is_prefix_of(acc2)) by {
                assert(acc2.subrange(0, acc.len() as int) =~= acc);
            }
            if utf8_len(acc2) > EXPORT_MAX_BYTES {
                assert(acc.is_prefix_of(acc2 + truncation_note())) by {
                    assert((acc2 + truncation_note()).subrange(0, acc.len() as int) =~= acc);
                }
            } else {
                lemma_export_extends(acc2, notes, k - 1, filter);
                let r = export_from(acc2, notes, k - 1, filter);
                assert(r.subrange(0, acc.len() as int) =~= acc2.subrange(0, acc.len() as int));
            }
        } else {
            lemma_export_extends(acc, notes, k - 1, filter);
        }
    } else {
        assert(acc.subrange(0, acc.len() as int) =~= acc);
    }
}

proof fn lemma_export_shape_from(acc: Seq<char>, notes: Seq<ExportNote>, k: int, filter: Seq<char>)
    requires
        0 <= k <= notes.len(),
    ensures
        ({
            let out = export_from(acc, notes, k, filter);
            ||| (out == acc + blocks_between(notes, k, 0, filter) && (blocks_between(notes, k, 0, filter) == Seq::<char>::empty() || utf8_len(out) <= EXPORT_MAX_BYTES))
            ||| exists|m: int|
                0 <= m < k && passes_filter(filter, notes[m])
                    && (blocks_between(notes, k, m + 1, filter) == Seq::<char>::empty() || utf8_len(acc + blocks_between(notes, k, m + 1, filter)) <= EXPORT_MAX_BYTES)
                    && utf8_len(#[trigger] (acc + blocks_between(notes, k, m, filter))) > EXPORT_MAX_BYTES
                    && out == acc + blocks_between(notes, k, m, filter) + truncation_note()
        }),
    decreases k,
{
    if k == 0 {
        assert(acc + blocks_between(notes, 0, 0, filter) =~= acc);
    } else {
        let n = notes[k - 1];
        if passes_filter(filter, n) {
            let acc2 = acc + note_block(n);
            if utf8_len(acc2) > EXPORT_MAX_BYTES {
                let m = k - 1;
                assert(blocks_between(notes, k, m + 1, filter) =~= seq![]);
                assert(acc + blocks_between(notes, k, m + 1, filter) =~= acc);
                assert(blocks_between(notes, k - 1, m, filter) =~= seq![]);
                assert(acc + blocks_between(notes, k, m, filter) =~= acc2);
            } else {
                lemma_export_shape_from(acc2, notes, k - 1, filter);
                let out = export_from(acc2, notes, k - 1, filter);
                if out == acc2 + blocks_between(notes, k - 1, 0, filter) && (blocks_between(notes, k - 1, 0, filter) == Seq::<char>::empty() || utf8_len(out) <= EXPORT_MAX_BYTES) {
                    if blocks_between(notes, k - 1, 0, filter) == Seq::<char>::empty() {
                        assert(out =~= acc2);
                    }
                    assert(acc2 + blocks_between(notes, k - 1, 0, filter) =~= acc + blocks_between(notes, k, 0, filter));
                } else {
                    let m = choose|m: int|
                        0 <= m < k - 1 && passes_filter(filter, notes[m])
                            && (blocks_between(notes, k - 1, m + 1, filter) == Seq::<char>::empty() || utf8_len(acc2 + blocks_between(notes, k - 1, m + 1, filter)) <= EXPORT_MAX_BYTES)
                            && utf8_len(#[trigger] (acc2 + blocks_between(notes, k - 1, m, filter))) > EXPORT_MAX_BYTES
                            && out == acc2 + blocks_between(notes, k - 1, m, filter) + truncation_note();
                    assert(acc2 + blocks_between(notes, k - 1, m + 1, filter) =~= acc + blocks_between(notes, k, m + 1, filter));
                    if blocks_between(notes, k - 1, m + 1, filter) == Seq::<char>::empty() {
                        assert(acc2 + blocks_between(notes, k - 1, m + 1, filter) =~= acc2);
                    }
                    assert(acc2 + blocks_between(notes, k - 1, m, filter) =~= acc + blocks_between(notes, k, m, filter));
                }
            }
        } else {
            lemma_export_shape_from(acc, notes, k - 1, filter);
            let out = export_from(acc, notes, k - 1, filter);
            if !(out == acc + blocks_between(notes, k - 1, 0, filter) && (blocks_between(notes, k - 1, 0, filter) == Seq::<char>::empty() || utf8_len(out) <= EXPORT_MAX_BYTES)) {
                let m = choose|m: int|
                    0 <= m < k - 1 && passes_filter(filter, notes[m])
                        && (blocks_between(notes, k - 1, m + 1, filter) == Seq::<char>::empty() || utf8_len(acc + blocks_between(notes, k - 1, m + 1, filter)) <= EXPORT_MAX_BYTES)
                        && utf8_len(#[trigger] (acc + blocks_between(notes, k - 1, m, filter))) > EXPORT_MAX_BYTES
                        && out == acc + blocks_between(notes, k - 1, m, filter) + truncation_note();
                assert(blocks_between(notes, k, m + 1, filter) == blocks_between(notes, k - 1, m + 1, filter));
                assert(blocks_between(notes, k, m, filter) == blocks_between(notes, k - 1, m, filter));
            }
        }
    }
}

/// The export text is its header, then the blocks of the notes that pass the
/// filter, newest first; the first block that takes the text past
/// `EXPORT_MAX_BYTES` is followed by the truncation note, and no later block
/// is written.
pub proof fn lemma_export_truncation(notes: Seq<ExportNote>, filter: Seq<char>)
    ensures
        ({
            let h = export_header(filter);
            let k = notes.len() as int;
            let out = export_from(h, notes, k, filter);
            ||| (out == h + blocks_between(notes, k, 0, filter) && (blocks_between(notes, k, 0, filter) == Seq::<char>::empty() || utf8_len(out) <= EXPORT_MAX_BYTES))
            ||| exists|m: int|
                0 <= m < k && passes_filter(filter, notes[m])
                    && (blocks_between(notes, k, m + 1, filter) == Seq::<char>::empty() || utf8_len(h + blocks_between(notes, k, m + 1, filter)) <= EXPORT_MAX_BYTES)
                    && utf8_len(#[trigger] (h + blocks_between(notes, k, m, filter))) > EXPORT_MAX_BYTES
                    && out == h + blocks_between(notes, k, m, filter) + truncation_note()
        }),
{
    lemma_export_shape_from(export_header(filter), notes, notes.len() as int, filter);
}

/// An export that stays within `EXPORT_MAX_BYTES` is its header, then the block
/// of every note that passes the filter, newest first, and nothing else.
pub proof fn lemma_export_blocks(notes: Seq<ExportNote>, filter: Seq<char>)
    requires
        utf8_len(export_header(filter) + shown_blocks(notes, notes.len() as int, filter)) <= EXPORT_MAX_BYTES,
    ensures
        export_from(export_header(filter), notes, notes.len() as int, filter) == export_header(filter)
            + shown_blocks(notes, notes.len() as int, filter),
{
    lemma_export_fits(export_header(filter), notes, notes.len() as int, filter);
}

pub fn format_export_text(filter: &str, notes: &[ExportNote]) -> (export: String)
    ensures
        export@ == export_from(export_header(filter@), notes@, notes@.len() as int, filter@),
{
    let mut export = String::new();
    push_str(&mut export, "Zoop Export\nFilter: ");
    push_str(&mut export, filter);
    push_str(&mut export, "\n------------------------------\n\n");
    assert(export@ =~= export_header(filter@));
    let all = str_eq(filter, "All");
    let mut k = notes.len();
    while k > 0
        invariant
            k <= notes@.len(),
            all == (filter@ == "All"@),
            export_from(export_header(filter@), notes@, notes@.len() as int, filter@)
                == export_from(export@, notes@, k as int, filter@),
        decreases k,
    {
        let note = &notes[k - 1];
        if !all && !str_eq(filter, note.tag.as_str()) {
            k -= 1;
            continue;
        }
        let ghost before = export@;
        let block = note_block_exec(note);
        push_str(&mut export, block.as_str());
        if byte_len(export.as_str()) > EXPORT_MAX_BYTES {
            push_str(&mut export, "\nExport truncated on device because it became too large.\n");
            return export;
        }
        k -= 1;
    }
    export
}

pub fn format_note_heading(num: i32, tag: &str) -> (h: String)
    ensures
        h@ == note_heading_spec(num, tag@),
{
    let mut h = String::new();
    push_str(&mut h, "#");
    push_int_padded(&mut h, num as i64, 3);
    push_str(&mut h, " · ");
    push_str(&mut h, tag);
    push_str(&mut h, "\n");
    assert(h@ =~= note_heading_spec(num, tag@));
    h
}

/// Download name for an export with the given filter.
pub open spec fn export_filename_spec(filter: Seq<char>) -> Seq<char> {
    if filter == "All"@ {
        "zoop_notes_export.txt"@
    } else {
        "zoop_notes_export_"@ + filter + ".txt"@
    }
}

pub fn export_filename(filter: &str) -> (name: String)
    ensures
        name@ == export_filename_spec(filter@),
{
    if str_eq(filter, "All") {
        owned("zoop_notes_export.txt")
    } else {
        let mut s = String::new();
        push_str(&mut s, "zoop_notes_export_");
        push_str(&mut s, filter);
        push_str(&mut s, ".txt");
        assert(s@ =~= export_filename_spec(filter@));
        s
    }
}

/// Hex digit value of an ASCII byte.
pub open spec fn hex_val(b: u8) -> Option<u8> {
    if 48 <= b <= 57 {
        Some((b - 48) as u8)
    } else if 97 <= b <= 102 {
        Some((b - 87) as u8)
    } else if 65 <= b <= 70 {
        Some((b - 55) as u8)
    } else {
        None
    }
}

/// `u8::from_str_radix` on a two-byte string (a leading `+` is allowed).
pub open spec fn hex_pair(b1: u8, b2: u8) -> Option<u8> {
    if b1 == 43 {
        hex_val(b2)
    } else {
        match (hex_val(b1), hex_val(b2)) {
            (Some(h), Some(l)) => Some((h * 16 + l) as u8),
            _ => None,
        }
    }
}

/// `+` becomes a space in the byte view.
pub open spec fn plus_to_space(b: Seq<u8>) -> Seq<u8> {
    b.map_values(|x: u8| if x == 43 { 32u8 } else { x })
}

/// Decoding of `b[i..]`: `%XX` escapes become one character, others pass as is.
pub open spec fn url_decode_from(b: Seq<u8>, i: int) -> Seq<char>
    decreases b.len() - i,
{
    if i < 0 || i >= b.len() {
        seq![]
    } else if b[i] == 37 && i + 2 < b.len() && hex_pair(b[i + 1], b[i + 2]) is Some {
        seq![hex_pair(b[i + 1], b[i + 2])->0 as char] + url_decode_from(b, i + 3)
    } else {
        seq![b[i] as char] + url_decode_from(b, i + 1)
    }
}

/// Every `%` with two bytes after it is followed by a whole character pair.
pub open spec fn escapes_on_boundaries(s: Seq<char>) -> bool {
    let b = encode_utf8(s);
    forall|i: int|
        0 <= i && i + 2 < b.len() && #[trigger] b[i] == 37 ==> is_char_boundary(b, i + 3)
}

/// Whether `url_decode_simple` may be called on `s`: every `%` escape ends
/// on a character boundary.
pub fn escapes_ok(s: &str) -> (r: bool)
    ensures
        r == escapes_on_boundaries(s@),
{
    let b = s.as_bytes();
    let n = b.len();
    let mut i: usize = 0;
    while i < n
        invariant
            n == b@.len(),
            b@ == encode_utf8(s@),
            i <= n,
            forall|k: int| 0 <= k < i && k + 2 < b@.len() && #[trigger] b@[k] == 37 ==> is_char_boundary(b@, k + 3),
        decreases n - i,
    {
        if n - i > 2 && b[i] == 37 {
            if !s.is_char_boundary(i + 3) {
                return false;
            }
        }
        i += 1;
    }
    true
}

fn hex_value(b: u8) -> (r: Option<u8>)
    ensures
        r == hex_val(b),
{
    if 48 <= b && b <= 57 {
        Some(b - 48)
    } else if 97 <= b && b <= 102 {
        Some(b - 87)
    } else if 65 <= b && b <= 70 {
        Some(b - 55)
    } else {
        None
    }
}

fn hex_pair_value(b1: u8, b2: u8) -> (r: Option<u8>)
    ensures
        r == hex_pair(b1, b2),
{
    if b1 == 43 {
        hex_value(b2)
    } else {
        match (hex_value(b1), hex_value(b2)) {
            (Some(h), Some(l)) => Some(h * 16 + l),
            _ => None,
        }
    }
}

/// Simple URL decode: `+` is a space and `%XX` escapes become characters.
pub fn url_decode_simple(s: &str) -> (out: String)
    requires
        escapes_on_boundaries(s@),
    ensures
        out@ == url_decode_from(plus_to_space(encode_utf8(s@)), 0),
{
    let raw = s.as_bytes();
    let mut bytes: Vec<u8> = Vec::new();
    for k in 0..raw.len()
        invariant
            raw@ == encode_utf8(s@),
            bytes@ == plus_to_space(raw@.take(k as int)),
    {
        let x = raw[k];
        bytes.push(if x == 43 { 32u8 } else { x });
        assert(bytes@ =~= plus_to_space(raw@.take(k + 1)));
    }
    assert(raw@.take(raw@.len() as int) =~= raw@);
    let ghost b = bytes@;
    let n = bytes.len();
    let mut out = String::new();
    let mut i: usize = 0;
    while i < n
        invariant
            b == bytes@,
            n == b.len(),
            i <= n,
            out@ + url_decode_from(b, i as int) == url_decode_from(b, 0),
        decreases n - i,
    {
        if bytes[i] == 37 && n - i > 2 {
            match hex_pair_value(bytes[i + 1], bytes[i + 2]) {
                Some(v) => {
                    push_char(&mut out, v as char);
                    i += 3;
                    continue;
                },
                None => {},
            }
        }
        push_char(&mut out, bytes[i] as char);
        i += 1;
    }
    assert(out@ =~= url_decode_from(b, 0));
    out
}

/// Stylesheet shared by the portal pages.
pub const PORTAL_CSS: &'static str = "<style>\
         :root{font-family:-apple-system,BlinkMacSystemFont,'Inter','Segoe UI',sans-serif;color:#111;background:#f3f0e9;}\
         body{margin:0;padding:24px;background:#f3f0e9;}\
         .wrap{max-width:780px;margin:0 auto;}\
         .top{display:flex;align-items:flex-end;justify-content:space-between;gap:16px;margin-bottom:24px;}\
         h1{font-size:44px;letter-spacing:-.06em;line-height:.9;margin:0;font-weight:800;}\
         .sub{font-size:13px;text-transform:uppercase;letter-spacing:.12em;color:#6a665f;margin-top:10px;}\
         .pill{display:inline-flex;border:1px solid #111;border-radius:999px;padding:8px 12px;font-size:13px;background:#fffaf1;}\
         .grid{display:grid;grid-template-columns:1fr;gap:14px;}\
         .card{background:#fffaf1;border:1.5px solid #111;border-radius:24px;padding:18px;box-shadow:4px 4px 0 #111;}\
         .row{display:flex;justify-content:space-between;gap:16px;align-items:flex-start;}\
         .num{font-size:13px;letter-spacing:.08em;text-transform:uppercase;color:#6a665f;margin-bottom:8px;}\
         .date{font-size:13px;color:#6a665f;margin:-4px 0 12px;}\
         .title{font-size:24px;line-height:1.05;letter-spacing:-.04em;font-weight:750;margin:0 0 12px;}\
         .tag{border:1px solid #111;border-radius:999px;padding:5px 9px;font-size:12px;white-space:nowrap;background:#111;color:#fff;}\
         .text{font-size:15px;line-height:1.45;color:#222;margin:0 0 14px;white-space:pre-wrap;}\
         .actions{display:flex;flex-wrap:wrap;gap:8px;margin-top:14px;}\
         a.btn{color:#111;text-decoration:none;border:1px solid #111;border-radius:999px;padding:8px 12px;background:#f3f0e9;font-size:13px;}\
         a.btn.primary{background:#111;color:#fff;}\
         .empty{border:1.5px dashed #111;border-radius:24px;padding:34px;text-align:center;color:#6a665f;}\
         audio{width:100%;margin-top:8px;}\
         </style>";

/// The portal's stylesheet.
pub fn portal_css() -> (css: String)
    ensures
        css@ == PORTAL_CSS@,
{
    owned(PORTAL_CSS)
}

/// The bytes of text whose characters are all ASCII, one per character.
pub open spec fn ascii_bytes(s: Seq<char>) -> Seq<u8> {
    s.map_values(|c: char| (c as u32) as u8)
}

/// Bytes read one character per byte.
pub open spec fn byte_chars(bs: Seq<u8>) -> Seq<char> {
    bs.map_values(|b: u8| b as char)
}

/// Every character is ASCII.
pub open spec fn all_ascii(s: Seq<char>) -> bool {
    forall|i: int| 0 <= i < s.len() ==> (#[trigger] s[i] as u32) < 128
}

proof fn lemma_utf8_of_ascii(s: Seq<char>)
    requires
        all_ascii(s),
    ensures
        encode_utf8(s) == ascii_bytes(s),
    decreases s.len(),
{
    if s.len() > 0 {
        let rest = s.drop_first();
        assert(all_ascii(rest)) by {
            assert forall|i: int| 0 <= i < rest.len() implies (#[trigger] rest[i] as u32) < 128 by {
                assert(rest[i] == s[i + 1]);
            }
        }
        lemma_utf8_of_ascii(rest);
        let v = s[0] as u32;
        assert(v < 128);
        assert((v & 0x7F) == v) by (bit_vector)
            requires
                v < 128,
        ;
        assert(ascii_bytes(s) =~= seq![(v as u8)] + ascii_bytes(rest));
    }
}

proof fn lemma_encode_concat(a: Seq<u8>, b: Seq<u8>)
    ensures
        url_encode_spec(a + b) == url_encode_spec(a) + url_encode_spec(b),
    decreases b.len(),
{
    if b.len() > 0 {
        lemma_encode_concat(a, b.drop_last());
        assert((a + b).drop_last() =~= a + b.drop_last());
        assert((a + b).last() == b.last());
    }
}

proof fn lemma_encoded_ascii(bs: Seq<u8>)
    ensures
        all_ascii(url_encode_spec(bs)),
        forall|i: int| 0 <= i < url_encode_spec(bs).len() ==> (#[trigger] url_encode_spec(bs)[i] as u32) != 43,
    decreases bs.len(),
{
    if bs.len() > 0 {
        lemma_encoded_ascii(bs.drop_last());
        let a = url_encode_spec(bs.drop_last());
        let e = encode_byte(bs.last());
        let b = bs.last();
        assert forall|i: int| 0 <= i < (a + e).len() implies (#[trigger] (a + e)[i] as u32) < 128 && ((a
            + e)[i] as u32) != 43 by {
            if i < a.len() {
                assert((a + e)[i] == a[i]);
            } else {
                assert((a + e)[i] == e[i - a.len()]);
            }
        }
    }
}

proof fn lemma_decode_shift(p: Seq<u8>, q: Seq<u8>, j: int)
    requires
        0 <= j,
    ensures
        url_decode_from(p + q, p.len() + j) == url_decode_from(q, j),
    decreases q.len() - j,
{
    let b = p + q;
    let i = p.len() + j;
    if j < q.len() {
        assert(b[i] == q[j]);
        if j + 2 < q.len() {
            assert(b[i + 1] == q[j + 1]);
            assert(b[i + 2] == q[j + 2]);
        }
        lemma_decode_shift(p, q, j + 1);
        if j + 2 < q.len() {
            lemma_decode_shift(p, q, j + 3);
        }
    }
}

proof fn lemma_hex_digit_value(d: int)
    requires
        0 <= d < 16,
    ensures
        hex_val((hex_upper(d) as u32) as u8) == Some(d as u8),
        (hex_upper(d) as u32) as u8 != 43,
{
    if d < 10 {
        assert(((d + 48) as u8) as char as u32 == d + 48);
    } else {
        assert(((d + 55) as u8) as char as u32 == d + 55);
    }
}

/// Percent-decoding reads back what the UPI percent-encoding wrote: every
/// byte comes back as one character. For ASCII text that is the text itself.
pub proof fn lemma_url_decode_encode(bs: Seq<u8>)
    ensures
        url_decode_from(plus_to_space(encode_utf8(url_encode_spec(bs))), 0) == byte_chars(bs),
    decreases bs.len(),
{
    lemma_encoded_ascii(bs);
    lemma_utf8_of_ascii(url_encode_spec(bs));
    let bytes = ascii_bytes(url_encode_spec(bs));
    assert(plus_to_space(bytes) =~= bytes);
    if bs.len() > 0 {
        let b = bs[0];
        let rest = bs.drop_first();
        assert(bs =~= seq![b] + rest);
        lemma_encode_concat(seq![b], rest);
        assert(url_encode_spec(seq![b]) =~= encode_byte(b)) by {
            assert(seq![b].drop_last() =~= Seq::<u8>::empty());
            assert(seq![b].last() == b);
            reveal_with_fuel(url_encode_spec, 2);
        }
        lemma_url_decode_encode(rest);
        lemma_encoded_ascii(rest);
        lemma_utf8_of_ascii(url_encode_spec(rest));
        let x = ascii_bytes(encode_byte(b));
        let y = ascii_bytes(url_encode_spec(rest));
        assert(plus_to_space(y) =~= y);
        assert(bytes =~= x + y);
        lemma_decode_shift(x, y, 0);
        if is_unreserved(b) {
            assert(x =~= seq![b]);
        } else if b == 32 {
            assert(x =~= seq![37u8, 50u8, 48u8]);
        } else {
            lemma_hex_digit_value((b / 16) as int);
            lemma_hex_digit_value((b % 16) as int);
            assert(x =~= seq![37u8, (hex_upper((b / 16) as int) as u32) as u8, (hex_upper((b % 16) as int) as u32) as u8]);
        }
        assert(url_decode_from(x + y, 0) =~= seq![b as char] + url_decode_from(y, 0));
        assert(byte_chars(bs) =~= seq![b as char] + byte_chars(rest));
    } else {
        assert(bytes =~= Seq::<u8>::empty());
    }
}

/// For ASCII text, decoding its UPI percent-encoding gives the text back.
pub proof fn lemma_url_roundtrip_ascii(s: Seq<char>)
    requires
        all_ascii(s),
    ensures
        url_decode_from(plus_to_space(encode_utf8(url_encode_spec(encode_utf8(s)))), 0) == s,
{
    lemma_utf8_of_ascii(s);
    lemma_url_decode_encode(encode_utf8(s));
    assert(byte_chars(ascii_bytes(s)) =~= s) by {
        assert forall|i: int| 0 <= i < s.len() implies #[trigger] byte_chars(ascii_bytes(s))[i] == s[i] by {
            let v = s[i] as u32;
            assert(v < 128);
            vstd::utf8::char_u32_cast(s[i], v);
            assert((v as u8) as char == v as char);
        }
    }
}

} // verus!
