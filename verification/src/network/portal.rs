//! Local transfer portal: its routes as pure HTTP handlers.
use vstd::prelude::*;
use vstd::utf8::{decode_utf8, encode_utf8, valid_utf8};

use crate::error::{CoreError, CoreResult};
use crate::paths::{note_path, note_path_spec};
use crate::portal_fmt::{
    escapes_on_boundaries, export_filename, export_filename_spec, export_from, export_header,
    format_export_text, html_escape, html_escape_spec, plus_to_space, portal_css, url_decode_from,
    url_decode_simple, escapes_ok, ExportNote, PORTAL_CSS,
};
use crate::storage::index::{remove_first, IndexStore, NoteView};
use crate::storage::meta::{read_note_meta_value, stored_meta_value};
use crate::storage::index::text_view;
use crate::storage::text_file_ok;
use crate::storage::tags::{
    add_custom_tag, delete_tag, has_tag, sanitized_tag, tag_has_notes, tag_name_cut_ok, tag_name_ok, TagStore,
};
use crate::storage::{delete_note, load_index, load_tags, FileStorage};
use crate::text::{
    parse_i32, parse_i32_spec, chars_of, dec_digits, eq_ignore_case, fmt_int, owned, push_char, push_dec,
    push_int, push_str, replace_char, slice_vec, str_eq, str_eq_ignore_case, string_from_chars,
    trim, trim_chars, truncate_floor, truncate_floor_chars, utf8_len,
};

verus! {

pub const PORTAL_TITLE: &'static str = "zoop portal";

#[derive(Debug, Clone, PartialEq, Eq)]
pub struct HttpRequest {
    pub method: String,
    pub path: String,
    pub query: Vec<(String, String)>,
}

#[derive(Debug, Clone, PartialEq, Eq)]
pub struct HttpResponse {
    pub status: u16,
    pub content_type: String,
    pub body: Vec<u8>,
    pub redirect: Option<String>,
    pub attachment: Option<String>,
}

pub open spec fn opt_view(o: Option<String>) -> Option<Seq<char>> {
    match o {
        Some(s) => Some(s@),
        None => None,
    }
}

/// A response as plain values: status, content type, body, redirect, attachment.
pub open spec fn resp_view(r: HttpResponse) -> (u16, Seq<char>, Seq<u8>, Option<Seq<char>>, Option<Seq<char>>) {
    (r.status, r.content_type@, r.body@, opt_view(r.redirect), opt_view(r.attachment))
}

/// The UTF-8 bytes of `s`.
pub fn utf8_bytes(s: &str) -> (v: Vec<u8>)
    ensures
        v@ == encode_utf8(s@),
{
    let b = s.as_bytes();
    let mut v: Vec<u8> = Vec::new();
    let mut i: usize = 0;
    while i < b.len()
        invariant
            i <= b@.len(),
            b@ == encode_utf8(s@),
            v@ == b@.take(i as int),
        decreases b@.len() - i,
    {
        v.push(b[i]);
        i += 1;
        assert(v@ =~= b@.take(i as int));
    }
    assert(b@.take(b@.len() as int) =~= b@);
    v
}

impl HttpResponse {
    pub fn html(body: String) -> (r: Self)
        ensures
            resp_view(r) == (200u16, "text/html; charset=utf-8"@, encode_utf8(body@), None::<Seq<char>>, None::<Seq<char>>),
    {
        HttpResponse {
            status: 200,
            content_type: owned("text/html; charset=utf-8"),
            body: utf8_bytes(body.as_str()),
            redirect: None,
            attachment: None,
        }
    }

    pub fn json(body: String) -> (r: Self)
        ensures
            resp_view(r) == (200u16, "application/json"@, encode_utf8(body@), None::<Seq<char>>, None::<Seq<char>>),
    {
        HttpResponse {
            status: 200,
            content_type: owned("application/json"),
            body: utf8_bytes(body.as_str()),
            redirect: None,
            attachment: None,
        }
    }

    pub fn text(body: String) -> (r: Self)
        ensures
            resp_view(r) == (200u16, "text/plain; charset=utf-8"@, encode_utf8(body@), None::<Seq<char>>, None::<Seq<char>>),
    {
        HttpResponse {
            status: 200,
            content_type: owned("text/plain; charset=utf-8"),
            body: utf8_bytes(body.as_str()),
            redirect: None,
            attachment: None,
        }
    }

    pub fn redirect(location: &str) -> (r: Self)
        ensures
            resp_view(r) == (303u16, "text/plain"@, Seq::<u8>::empty(), Some(location@), None::<Seq<char>>),
    {
        HttpResponse {
            status: 303,
            content_type: owned("text/plain"),
            body: Vec::new(),
            redirect: Some(owned(location)),
            attachment: None,
        }
    }

    pub fn not_found() -> (r: Self)
        ensures
            resp_view(r) == (404u16, "text/plain"@, encode_utf8("Not found"@), None::<Seq<char>>, None::<Seq<char>>),
    {
        HttpResponse {
            status: 404,
            content_type: owned("text/plain"),
            body: utf8_bytes("Not found"),
            redirect: None,
            attachment: None,
        }
    }

    pub fn bad_request(msg: &str) -> (r: Self)
        ensures
            resp_view(r) == (400u16, "text/plain"@, encode_utf8(msg@), None::<Seq<char>>, None::<Seq<char>>),
    {
        HttpResponse {
            status: 400,
            content_type: owned("text/plain"),
            body: utf8_bytes(msg),
            redirect: None,
            attachment: None,
        }
    }

    pub fn file(content_type: &str, data: Vec<u8>, attachment: Option<String>) -> (r: Self)
        ensures
            resp_view(r) == (200u16, content_type@, data@, None::<Seq<char>>, opt_view(attachment)),
    {
        HttpResponse { status: 200, content_type: owned(content_type), body: data, redirect: None, attachment }
    }
}

/// Pieces of `s` between the `c`s, as `str::split` yields them.
pub open spec fn split_fold(s: Seq<char>, c: char) -> (Seq<Seq<char>>, Seq<char>)
    decreases s.len(),
{
    if s.len() == 0 {
        (seq![], seq![])
    } else {
        let (done, cur) = split_fold(s.drop_last(), c);
        if s.last() == c {
            (done.push(cur), seq![])
        } else {
            (done, cur.push(s.last()))
        }
    }
}

pub open spec fn split_on(s: Seq<char>, c: char) -> Seq<Seq<char>> {
    let (done, cur) = split_fold(s, c);
    done.push(cur)
}

/// Position of the first `c` in `s`.
pub open spec fn first_pos(s: Seq<char>, c: char) -> Option<int>
    decreases s.len(),
{
    if s.len() == 0 {
        None
    } else if s[0] == c {
        Some(0)
    } else {
        match first_pos(s.drop_first(), c) {
            Some(i) => Some(i + 1),
            None => None,
        }
    }
}

/// `k=v` as `(k, v)`; a piece without `=` is a key with an empty value.
pub open spec fn pair_of(p: Seq<char>) -> (Seq<char>, Seq<char>) {
    match first_pos(p, '=') {
        Some(j) => (p.take(j), p.skip(j + 1)),
        None => (p, seq![]),
    }
}

/// Route and `key=value` pairs of a request path.
pub open spec fn parse_query_spec(path: Seq<char>) -> (Seq<char>, Seq<(Seq<char>, Seq<char>)>) {
    match first_pos(path, '?') {
        None => (path, seq![]),
        Some(i) => (path.take(i), split_on(path.skip(i + 1), '&').map_values(|p: Seq<char>| pair_of(p))),
    }
}

pub open spec fn pairs_view(q: Seq<(String, String)>) -> Seq<(Seq<char>, Seq<char>)> {
    q.map_values(|p: (String, String)| (p.0@, p.1@))
}

proof fn lemma_first_pos(s: Seq<char>, c: char)
    ensures
        first_pos(s, c) matches Some(i) ==> 0 <= i < s.len() && s[i] == c,
    decreases s.len(),
{
    if s.len() > 0 && s[0] != c {
        lemma_first_pos(s.drop_first(), c);
    }
}

fn first_pos_exec(v: &[char], c: char) -> (r: Option<usize>)
    ensures
        r matches Some(i) ==> first_pos(v@, c) == Some(i as int) && i < v@.len(),
        r is None ==> first_pos(v@, c) is None,
{
    proof {
        lemma_first_pos(v@, c);
    }
    let mut i: usize = 0;
    assert(v@.skip(0) =~= v@);
    while i < v.len()
        invariant
            i <= v@.len(),
            forall|k: int| 0 <= k < i ==> v@[k] != c,
            first_pos(v@, c) == match first_pos(v@.skip(i as int), c) {
                Some(j) => Some(j + i),
                None => None::<int>,
            },
        decreases v@.len() - i,
    {
        assert(v@.skip(i as int).drop_first() =~= v@.skip(i + 1));
        if v[i] == c {
            return Some(i);
        }
        i += 1;
    }
    None
}

fn pair_exec(p: &[char]) -> (r: (String, String))
    ensures
        (r.0@, r.1@) == pair_of(p@),
{
    match first_pos_exec(p, '=') {
        Some(j) => {
            let n = p.len();
            let k = slice_vec(p, 0, j);
            let v = slice_vec(p, j + 1, n);
            assert(k@ =~= p@.take(j as int));
            assert(v@ =~= p@.skip(j + 1));
            (string_from_chars(&k), string_from_chars(&v))
        },
        None => {
            let e = String::new();
            assert(e@ =~= Seq::<char>::empty());
            (string_from_chars(p), e)
        },
    }
}

/// Split a request path into its route and `key=value` query pairs.
pub fn parse_query(path: &str) -> (r: (String, Vec<(String, String)>))
    ensures
        (r.0@, pairs_view(r.1@)) == parse_query_spec(path@),
{
    let v = chars_of(path);
    match first_pos_exec(&v, '?') {
        None => {
            let e: Vec<(String, String)> = Vec::new();
            assert(pairs_view(e@) =~= Seq::<(Seq<char>, Seq<char>)>::empty());
            (string_from_chars(&v), e)
        },
        Some(i) => {
            let n = v.len();
            let route = slice_vec(&v, 0, i);
            assert(route@ =~= v@.take(i as int));
            let q = slice_vec(&v, i + 1, n);
            assert(q@ =~= v@.skip(i + 1));
            let mut out: Vec<(String, String)> = Vec::new();
            let mut cur: Vec<char> = Vec::new();
            let mut k: usize = 0;
            assert(q@.take(0) =~= Seq::<char>::empty());
            while k < q.len()
                invariant
                    k <= q@.len(),
                    (pairs_view(out@), cur@) == ({
                        let (d, c) = split_fold(q@.take(k as int), '&');
                        (d.map_values(|p: Seq<char>| pair_of(p)), c)
                    }),
                decreases q@.len() - k,
            {
                assert(q@.take(k + 1).drop_last() =~= q@.take(k as int));
                let ghost before = out@;
                if q[k] == '&' {
                    let pr = pair_exec(&cur);
                    out.push(pr);
                    cur = Vec::new();
                    assert(pairs_view(out@) =~= pairs_view(before).push(pair_of(split_fold(q@.take(k as int), '&').1)));
                    assert(pairs_view(out@) =~= split_fold(q@.take(k + 1), '&').0.map_values(|p: Seq<char>| pair_of(p)));
                } else {
                    cur.push(q[k]);
                }
                k += 1;
            }
            assert(q@.take(q@.len() as int) =~= q@);
            let ghost before = out@;
            let pr = pair_exec(&cur);
            out.push(pr);
            assert(pairs_view(out@) =~= pairs_view(before).push(pair_of(cur@)));
            assert(pairs_view(out@) =~= split_on(q@, '&').map_values(|p: Seq<char>| pair_of(p)));
            (string_from_chars(&route), out)
        },
    }
}

/// Value of the first pair whose key is `key`.
pub open spec fn param_spec(q: Seq<(Seq<char>, Seq<char>)>, key: Seq<char>) -> Option<Seq<char>>
    decreases q.len(),
{
    if q.len() == 0 {
        None
    } else if q[0].0 == key {
        Some(q[0].1)
    } else {
        param_spec(q.drop_first(), key)
    }
}

pub fn query_param<'a>(query: &'a [(String, String)], key: &str) -> (r: Option<&'a str>)
    ensures
        match param_spec(pairs_view(query@), key@) {
            Some(v) => r matches Some(s) && s@ == v,
            None => r is None,
        },
{
    let ghost q = pairs_view(query@);
    let mut i: usize = 0;
    assert(q.skip(0) =~= q);
    while i < query.len()
        invariant
            q == pairs_view(query@),
            i <= query@.len(),
            param_spec(q, key@) == param_spec(q.skip(i as int), key@),
        decreases query@.len() - i,
    {
        assert(q.skip(i as int)[0] == (query@[i as int].0@, query@[i as int].1@));
        assert(q.skip(i as int).drop_first() =~= q.skip(i + 1));
        if str_eq(query[i].0.as_str(), key) {
            return Some(query[i].1.as_str());
        }
        i += 1;
    }
    None
}

/// `String::from_utf8_lossy` of `bytes`.
pub uninterp spec fn utf8_lossy(bytes: Seq<u8>) -> Seq<char>;

/// `String::from_utf8_lossy`: decodes `bytes`, replacing each invalid
/// sequence with U+FFFD; valid UTF-8 is decoded unchanged.
#[verifier::external_body]
pub(crate) fn lossy_text(bytes: &[u8]) -> (s: String)
    ensures
        s@ == utf8_lossy(bytes@),
        valid_utf8(bytes@) ==> s@ == decode_utf8(bytes@),
{
    String::from_utf8_lossy(bytes).into_owned()
}

/// `s` with every `"` preceded by a backslash.
pub open spec fn quote_escaped(s: Seq<char>) -> Seq<char>
    decreases s.len(),
{
    if s.len() == 0 {
        seq![]
    } else {
        quote_escaped(s.drop_last()) + (if s.last() == '"' { seq!['\\', '"'] } else { seq![s.last()] })
    }
}

fn push_quote_escaped(out: &mut String, s: &str)
    ensures
        final(out)@ == old(out)@ + quote_escaped(s@),
{
    let v = chars_of(s);
    let mut i: usize = 0;
    assert(old(out)@ + quote_escaped(v@.take(0)) =~= old(out)@);
    while i < v.len()
        invariant
            i <= v@.len(),
            v@ == s@,
            out@ == old(out)@ + quote_escaped(v@.take(i as int)),
        decreases v@.len() - i,
    {
        assert(v@.take(i + 1).drop_last() =~= v@.take(i as int));
        if v[i] == '"' {
            push_char(out, '\\');
            push_char(out, '"');
        } else {
            push_char(out, v[i]);
        }
        i += 1;
    }
    assert(v@.take(v@.len() as int) =~= v@);
}

/// Row `i` of `/api/notes` among `n` rows, preceded by a comma unless it is
/// the last row, which the list shows first.
pub open spec fn api_item(i: int, n: int, e: NoteView) -> Seq<char> {
    (if i + 1 < n { ","@ } else { ""@ }) + "{\"num\":"@ + fmt_int(e.0 as int, 0) + ",\"tag\":\""@ + quote_escaped(e.1)
        + "\",\"hasText\":"@ + (if e.2 { "true"@ } else { "false"@ }) + "}"@
}

/// Rows `lo .. hi` of `/api/notes`, highest first.
pub open spec fn api_range(es: Seq<NoteView>, lo: int, hi: int) -> Seq<char>
    decreases hi - lo,
{
    if lo >= hi {
        seq![]
    } else {
        api_range(es, lo + 1, hi) + api_item(lo, hi, es[lo])
    }
}

/// The `/api/notes` body: every row, newest (last) first.
pub open spec fn api_json(es: Seq<NoteView>) -> Seq<char> {
    "["@ + api_range(es, 0, es.len() as int) + "]"@
}

fn api_item_exec(i: usize, n: usize, e: &crate::storage::NoteEntry) -> (s: String)
    requires
        i < n,
    ensures
        s@ == api_item(i as int, n as int, e@),
{
    let mut s = String::new();
    if i + 1 < n {
        push_str(&mut s, ",");
    } else {
        push_str(&mut s, "");
    }
    push_str(&mut s, "{\"num\":");
    push_int(&mut s, e.num as i64);
    push_str(&mut s, ",\"tag\":\"");
    push_quote_escaped(&mut s, e.tag.as_str());
    push_str(&mut s, "\",\"hasText\":");
    push_str(&mut s, if e.has_text { "true" } else { "false" });
    push_str(&mut s, "}");
    assert(s@ =~= api_item(i as int, n as int, e@));
    s
}

/// JSON list of the index rows, newest first.
pub fn api_notes_json(index: &IndexStore) -> (json: String)
    ensures
        json@ == api_json(index@),
{
    let mut json = String::new();
    push_str(&mut json, "[");
    let n = index.entries.len();
    let mut i: usize = n;
    while i > 0
        invariant
            n == index@.len(),
            n == index.entries@.len(),
            i <= n,
            json@ == "["@ + api_range(index@, i as int, n as int),
        decreases i,
    {
        i -= 1;
        let e = &index.entries[i];
        assert(index@[i as int] == e@);
        let item = api_item_exec(i, n, e);
        push_str(&mut json, item.as_str());
        assert(json@ =~= "["@ + api_range(index@, i as int, n as int));
    }
    push_str(&mut json, "]");
    json
}

/// A filter button; the active one is marked primary.
pub open spec fn tag_link_spec(label: Seq<char>, filter: Seq<char>, href_tag: Seq<char>) -> Seq<char> {
    let primary = if filter == label { " primary"@ } else { ""@ };
    if href_tag == "All"@ {
        "<a class='btn"@ + primary + "' href='/'>All</a>"@
    } else {
        "<a class='btn"@ + primary + "' href='/?tag="@ + html_escape_spec(href_tag) + "'>"@ + html_escape_spec(label) + "</a>"@
    }
}

fn tag_link(label: &str, filter: &str, href_tag: &str) -> (s: String)
    ensures
        s@ == tag_link_spec(label@, filter@, href_tag@),
{
    let primary = if str_eq(filter, label) { " primary" } else { "" };
    let mut s = String::new();
    if str_eq(href_tag, "All") {
        push_str(&mut s, "<a class='btn");
        push_str(&mut s, primary);
        push_str(&mut s, "' href='/'>All</a>");
    } else {
        push_str(&mut s, "<a class='btn");
        push_str(&mut s, primary);
        push_str(&mut s, "' href='/?tag=");
        let h = html_escape(href_tag);
        push_str(&mut s, h.as_str());
        push_str(&mut s, "'>");
        let l = html_escape(label);
        push_str(&mut s, l.as_str());
        push_str(&mut s, "</a>");
    }
    assert(s@ =~= tag_link_spec(label@, filter@, href_tag@));
    s
}

/// How many rows carry exactly `tag`.
pub open spec fn tag_count(es: Seq<NoteView>, tag: Seq<char>) -> nat
    decreases es.len(),
{
    if es.len() == 0 {
        0
    } else {
        tag_count(es.drop_last(), tag) + if es.last().1 == tag { 1nat } else { 0nat }
    }
}

fn count_tag(index: &IndexStore, tag: &str) -> (n: usize)
    ensures
        n == tag_count(index@, tag@),
{
    let len = index.entries.len();
    let mut n: usize = 0;
    let mut i: usize = 0;
    while i < len
        invariant
            len == index@.len(),
            len == index.entries@.len(),
            i <= len,
            n <= i,
            n == tag_count(index@.take(i as int), tag@),
        decreases len - i,
    {
        assert(index@.take(i + 1).drop_last() =~= index@.take(i as int));
        assert(index@.take(i + 1).last() == index.entries@[i as int]@);
        if str_eq(index.entries[i].tag.as_str(), tag) {
            n += 1;
        }
        i += 1;
    }
    assert(index@.take(len as int) =~= index@);
    n
}

/// One row of the tags page: name, note count, and a delete link unless
/// the tag is `Untagged`.
pub open spec fn tag_row(tag: Seq<char>, count: nat) -> Seq<char> {
    "<div class='row'><span>"@ + html_escape_spec(tag) + "</span> <span>"@ + dec_digits(count) + " notes</span>"@
        + (if !eq_ignore_case(tag, "Untagged"@) {
        " <a href='/tag/delete?name="@ + html_escape_spec(tag) + "'>Delete</a>"@
    } else {
        ""@
    }) + "</div>"@
}

fn tag_row_exec(tag: &str, cnt: usize) -> (s: String)
    ensures
        s@ == tag_row(tag@, cnt as nat),
{
    let mut s = String::new();
    push_str(&mut s, "<div class='row'><span>");
    let e = html_escape(tag);
    push_str(&mut s, e.as_str());
    push_str(&mut s, "</span> <span>");
    push_dec(&mut s, cnt as u64);
    push_str(&mut s, " notes</span>");
    if !str_eq_ignore_case(tag, "Untagged") {
        push_str(&mut s, " <a href='/tag/delete?name=");
        push_str(&mut s, e.as_str());
        push_str(&mut s, "'>Delete</a>");
    } else {
        push_str(&mut s, "");
    }
    push_str(&mut s, "</div>");
    assert(s@ =~= tag_row(tag@, cnt as nat));
    s
}

pub open spec fn tag_rows(tags: Seq<Seq<char>>, es: Seq<NoteView>, n: int) -> Seq<char>
    decreases n,
{
    if n <= 0 {
        seq![]
    } else {
        tag_rows(tags, es, n - 1) + tag_row(tags[n - 1], tag_count(es, tags[n - 1]))
    }
}

pub open spec fn tags_page_spec(tags: Seq<Seq<char>>, es: Seq<NoteView>, msg: Option<Seq<char>>) -> Seq<char> {
    "<!doctype html><html><head><meta charset='utf-8'><title>zoop tags</title></head><body><div class='wrap'>"@
        + "<h1>zoop tags</h1><a href='/'>Back to notes</a>"@ + (match msg {
        Some(m) => "<div class='msg'>"@ + m + "</div>"@,
        None => ""@,
    }) + "<form action='/tag/add'><input name='name' maxlength='31'><button type='submit'>Add</button></form>"@
        + tag_rows(tags, es, tags.len() as int) + "</div></body></html>"@
}

/// The tags page: each tag with its note count; `msg` echoes the last action.
pub fn tags_page(index: &IndexStore, tags: &TagStore, msg: Option<&str>) -> (html: String)
    ensures
        html@ == tags_page_spec(tags@, index@, match msg {
            Some(m) => Some(m@),
            None => None,
        }),
{
    let mut html = String::new();
    push_str(&mut html, "<!doctype html><html><head><meta charset='utf-8'><title>zoop tags</title></head><body><div class='wrap'>");
    push_str(&mut html, "<h1>zoop tags</h1><a href='/'>Back to notes</a>");
    match msg {
        Some(m) => {
            push_str(&mut html, "<div class='msg'>");
            push_str(&mut html, m);
            push_str(&mut html, "</div>");
        },
        None => push_str(&mut html, ""),
    }
    push_str(&mut html, "<form action='/tag/add'><input name='name' maxlength='31'><button type='submit'>Add</button></form>");
    let ghost head = html@;
    let n = tags.tags.len();
    let mut i: usize = 0;
    while i < n
        invariant
            n == tags@.len(),
            n == tags.tags@.len(),
            i <= n,
            html@ == head + tag_rows(tags@, index@, i as int),
        decreases n - i,
    {
        let tag = tags.tags[i].as_str();
        assert(tags@[i as int] == tag@);
        let cnt = count_tag(index, tag);
        let row = tag_row_exec(tag, cnt);
        push_str(&mut html, row.as_str());
        i += 1;
        assert(html@ =~= head + tag_rows(tags@, index@, i as int));
    }
    push_str(&mut html, "</div></body></html>");
    assert(html@ =~= tags_page_spec(tags@, index@, match msg {
        Some(m) => Some(m@),
        None => None,
    }));
    html
}

/// What the root page shows of one note.
#[derive(Debug, Clone, PartialEq, Eq)]
pub struct NoteCard {
    pub num: i32,
    pub tag: String,
    pub has_text: bool,
    /// Start of the transcript file (empty when there is none).
    pub transcript: String,
    /// `created_utc` from the note's meta file (empty when unknown).
    pub created: String,
    /// The WAV existed when the player was laid out.
    pub audio: bool,
    /// The WAV existed when the download link was laid out.
    pub wav: bool,
}

pub type CardView = (i32, Seq<char>, bool, Seq<char>, Seq<char>, bool, bool);

pub open spec fn card_view(c: NoteCard) -> CardView {
    (c.num, c.tag@, c.has_text, c.transcript@, c.created@, c.audio, c.wav)
}

pub open spec fn card_views(cs: Seq<NoteCard>) -> Seq<CardView> {
    cs.map_values(|c: NoteCard| card_view(c))
}

/// The transcript shown, or a placeholder when it is empty.
pub open spec fn shown_text(c: CardView) -> Seq<char> {
    if c.3.len() == 0 {
        if c.2 { "(empty transcript)"@ } else { "Not transcribed yet."@ }
    } else {
        c.3
    }
}

/// The transcript on one line, trimmed: the title before it is shortened.
pub open spec fn title_base(c: CardView) -> Seq<char> {
    trim(replace_char(shown_text(c), '\n', ' '))
}

/// The card title: the one-line transcript cut to at most 58 bytes (at the
/// last character boundary) plus `...`, or `Voice note N` when there is
/// nothing to show.
pub open spec fn card_title(c: CardView) -> Seq<char> {
    let b = title_base(c);
    let t = if utf8_len(b) > 58 { truncate_floor(b, 58) + "..."@ } else { b };
    if t.len() == 0 || t == "Not transcribed yet."@ {
        "Voice note "@ + fmt_int(c.0 as int, 0)
    } else {
        t
    }
}

/// Card heading: number, title, date and tag.
pub open spec fn card_top(c: CardView) -> Seq<char> {
    let n = fmt_int(c.0 as int, 0);
    "<div class='card'>"@ + "<div class='row'><div><div class='num'>#"@ + n + "</div><h2 class='title'>"@
        + html_escape_spec(card_title(c)) + "</h2>"@ + (if c.4.len() > 0 {
        "<div class='date' data-utc='"@ + c.4 + "'>"@ + c.4 + "</div>"@
    } else {
        "<div class='date'>time not set</div>"@
    }) + "</div><div class='tag'>"@ + html_escape_spec(c.1) + "</div></div>"@
}

/// Card body: the transcript, the player and the action links.
pub open spec fn card_rest(c: CardView) -> Seq<char> {
    let n = fmt_int(c.0 as int, 0);
    "<p class='text'>"@ + html_escape_spec(shown_text(c)) + "</p>"@ + (if c.5 {
        "<audio controls src='/audio?num="@ + n + "'></audio>"@
    } else {
        ""@
    }) + "<div class='actions'>"@ + "<a class='btn primary' href='/txt?num="@ + n + "'>Download TXT</a>"@ + (if c.6 {
        "<a class='btn' href='/wav?num="@ + n + "'>Download WAV</a>"@
    } else {
        ""@
    }) + "<a class='btn' style='margin-left:auto;color:#c0392b;border-color:#c0392b' href='/note/delete?num="@
        + n + "'>Delete</a>"@ + "</div></div>"@
}

pub open spec fn card_html(c: CardView) -> Seq<char> {
    card_top(c) + card_rest(c)
}

pub open spec fn cards_html(cs: Seq<CardView>, n: int) -> Seq<char>
    decreases n,
{
    if n <= 0 {
        seq![]
    } else {
        cards_html(cs, n - 1) + card_html(cs[n - 1])
    }
}

pub open spec fn tag_links(tags: Seq<Seq<char>>, filter: Seq<char>, n: int) -> Seq<char>
    decreases n,
{
    if n <= 0 {
        seq![]
    } else {
        tag_links(tags, filter, n - 1) + tag_link_spec(tags[n - 1], filter, tags[n - 1])
    }
}

pub open spec fn root_head(n_notes: nat) -> Seq<char> {
    "<!doctype html><html><head><meta charset='utf-8'><meta name='viewport' content='width=device-width,initial-scale=1'><title>"@
        + PORTAL_TITLE@ + "</title>"@ + PORTAL_CSS@ + "</head><body><div class='wrap'>"@
        + "<div class='top'><div><h1>zoop<br>portal</h1><div class='sub'>local note transfer · <a href=\"/tags\" style=\"color:inherit\">tags</a></div></div><div class='pill'>"@
        + dec_digits(n_notes) + " notes</div></div>"@
}

pub open spec fn download_bar(filter: Seq<char>) -> Seq<char> {
    "<div class='actions' style='margin-bottom:24px'>"@ + "<a class='btn primary' href='/export.txt'>Download all TXT</a>"@
        + (if filter != "All"@ {
        "<a class='btn' href='/export.txt?tag="@ + html_escape_spec(filter) + "'>Download "@ + html_escape_spec(filter)
            + " TXT</a>"@
    } else {
        ""@
    }) + "</div>"@
}

/// The root page: header with the note count, filter buttons, download
/// links, then one card per shown note (or a notice when there is none).
pub open spec fn root_page_spec(n_notes: nat, filter: Seq<char>, tags: Seq<Seq<char>>, cards: Seq<CardView>) -> Seq<char> {
    root_head(n_notes) + "<div class='actions' style='margin-bottom:18px'>"@ + tag_link_spec("All"@, filter, "All"@)
        + tag_links(tags, filter, tags.len() as int) + "</div>"@ + download_bar(filter) + (if cards.len() == 0 {
        "<div class='empty'>No notes for this filter.</div>"@
    } else {
        "<div class='grid'>"@ + cards_html(cards, cards.len() as int) + "</div>"@
    }) + "</div></body></html>"@
}

fn card_title_exec(c: &NoteCard) -> (t: String)
    ensures
        t@ == card_title(card_view(*c)),
{
    let shown: String = if c.transcript.as_str().is_empty() {
        if c.has_text { owned("(empty transcript)") } else { owned("Not transcribed yet.") }
    } else {
        owned(c.transcript.as_str())
    };
    let v = chars_of(shown.as_str());
    let mut one: Vec<char> = Vec::new();
    let mut i: usize = 0;
    while i < v.len()
        invariant
            i <= v@.len(),
            one@ == replace_char(v@.take(i as int), '\n', ' '),
        decreases v@.len() - i,
    {
        one.push(if v[i] == '\n' { ' ' } else { v[i] });
        i += 1;
        assert(one@ =~= replace_char(v@.take(i as int), '\n', ' '));
    }
    assert(v@.take(v@.len() as int) =~= v@);
    assert(shown@ == shown_text(card_view(*c)));
    let base = trim_chars(&one);
    assert(base@ == title_base(card_view(*c)));
    let cut = truncate_floor_chars(&base, 58);
    let mut t = string_from_chars(&cut);
    if crate::text::byte_len(string_from_chars(&base).as_str()) > 58 {
        push_str(&mut t, "...");
    }
    proof {
        if utf8_len(base@) <= 58 {
            assert(cut@ == base@);
        }
    }
    if t.as_str().is_empty() || str_eq(t.as_str(), "Not transcribed yet.") {
        let mut out = String::new();
        push_str(&mut out, "Voice note ");
        push_int(&mut out, c.num as i64);
        return out;
    }
    t
}

fn card_top_exec(c: &NoteCard, n: &str) -> (h: String)
    requires
        n@ == fmt_int(c.num as int, 0),
    ensures
        h@ == card_top(card_view(*c)),
{
    let title = card_title_exec(c);
    let mut h = String::new();
    push_str(&mut h, "<div class='card'>");
    push_str(&mut h, "<div class='row'><div><div class='num'>#");
    push_str(&mut h, n);
    push_str(&mut h, "</div><h2 class='title'>");
    let et = html_escape(title.as_str());
    push_str(&mut h, et.as_str());
    push_str(&mut h, "</h2>");
    if !c.created.as_str().is_empty() {
        push_str(&mut h, "<div class='date' data-utc='");
        push_str(&mut h, c.created.as_str());
        push_str(&mut h, "'>");
        push_str(&mut h, c.created.as_str());
        push_str(&mut h, "</div>");
    } else {
        push_str(&mut h, "<div class='date'>time not set</div>");
    }
    push_str(&mut h, "</div><div class='tag'>");
    let eg = html_escape(c.tag.as_str());
    push_str(&mut h, eg.as_str());
    push_str(&mut h, "</div></div>");
    assert(h@ =~= card_top(card_view(*c)));
    h
}

fn card_rest_exec(c: &NoteCard, n: &str) -> (h: String)
    requires
        n@ == fmt_int(c.num as int, 0),
    ensures
        h@ == card_rest(card_view(*c)),
{
    let shown: String = if c.transcript.as_str().is_empty() {
        if c.has_text { owned("(empty transcript)") } else { owned("Not transcribed yet.") }
    } else {
        owned(c.transcript.as_str())
    };
    let mut h = String::new();
    push_str(&mut h, "<p class='text'>");
    let es = html_escape(shown.as_str());
    push_str(&mut h, es.as_str());
    push_str(&mut h, "</p>");
    if c.audio {
        push_str(&mut h, "<audio controls src='/audio?num=");
        push_str(&mut h, n);
        push_str(&mut h, "'></audio>");
    } else {
        push_str(&mut h, "");
    }
    push_str(&mut h, "<div class='actions'>");
    push_str(&mut h, "<a class='btn primary' href='/txt?num=");
    push_str(&mut h, n);
    push_str(&mut h, "'>Download TXT</a>");
    if c.wav {
        push_str(&mut h, "<a class='btn' href='/wav?num=");
        push_str(&mut h, n);
        push_str(&mut h, "'>Download WAV</a>");
    } else {
        push_str(&mut h, "");
    }
    push_str(&mut h, "<a class='btn' style='margin-left:auto;color:#c0392b;border-color:#c0392b' href='/note/delete?num=");
    push_str(&mut h, n);
    push_str(&mut h, "'>Delete</a>");
    push_str(&mut h, "</div></div>");
    assert(h@ =~= card_rest(card_view(*c)));
    h
}

fn card_html_exec(c: &NoteCard) -> (h: String)
    ensures
        h@ == card_html(card_view(*c)),
{
    let mut n = String::new();
    push_int(&mut n, c.num as i64);
    assert(n@ =~= fmt_int(c.num as int, 0));
    let mut h = card_top_exec(c, n.as_str());
    let rest = card_rest_exec(c, n.as_str());
    push_str(&mut h, rest.as_str());
    h
}

fn root_head_exec(n_notes: usize) -> (h: String)
    ensures
        h@ == root_head(n_notes as nat),
{
    let mut h = String::new();
    push_str(&mut h, "<!doctype html><html><head><meta charset='utf-8'><meta name='viewport' content='width=device-width,initial-scale=1'><title>");
    push_str(&mut h, PORTAL_TITLE);
    push_str(&mut h, "</title>");
    let css = portal_css();
    push_str(&mut h, css.as_str());
    push_str(&mut h, "</head><body><div class='wrap'>");
    push_str(&mut h, "<div class='top'><div><h1>zoop<br>portal</h1><div class='sub'>local note transfer · <a href=\"/tags\" style=\"color:inherit\">tags</a></div></div><div class='pill'>");
    push_dec(&mut h, n_notes as u64);
    push_str(&mut h, " notes</div></div>");
    assert(h@ =~= root_head(n_notes as nat));
    h
}

fn download_bar_exec(filter: &str) -> (h: String)
    ensures
        h@ == download_bar(filter@),
{
    let mut h = String::new();
    push_str(&mut h, "<div class='actions' style='margin-bottom:24px'>");
    push_str(&mut h, "<a class='btn primary' href='/export.txt'>Download all TXT</a>");
    if !str_eq(filter, "All") {
        let e = html_escape(filter);
        push_str(&mut h, "<a class='btn' href='/export.txt?tag=");
        push_str(&mut h, e.as_str());
        push_str(&mut h, "'>Download ");
        push_str(&mut h, e.as_str());
        push_str(&mut h, " TXT</a>");
    } else {
        push_str(&mut h, "");
    }
    push_str(&mut h, "</div>");
    assert(h@ =~= download_bar(filter@));
    h
}

/// The root page for `n_notes` notes in all, the active `filter`, the tag
/// list and the cards shown (in display order).
pub fn root_page(n_notes: usize, filter: &str, tags: &TagStore, cards: &[NoteCard]) -> (html: String)
    ensures
        html@ == root_page_spec(n_notes as nat, filter@, tags@, card_views(cards@)),
{
    let mut html = root_head_exec(n_notes);
    push_str(&mut html, "<div class='actions' style='margin-bottom:18px'>");
    let all = tag_link("All", filter, "All");
    push_str(&mut html, all.as_str());
    let ghost before_links = html@;
    let nt = tags.tags.len();
    let mut i: usize = 0;
    while i < nt
        invariant
            nt == tags@.len(),
            nt == tags.tags@.len(),
            i <= nt,
            html@ == before_links + tag_links(tags@, filter@, i as int),
        decreases nt - i,
    {
        let t = tags.tags[i].as_str();
        assert(tags@[i as int] == t@);
        let l = tag_link(t, filter, t);
        push_str(&mut html, l.as_str());
        i += 1;
        assert(html@ =~= before_links + tag_links(tags@, filter@, i as int));
    }
    push_str(&mut html, "</div>");
    let bar = download_bar_exec(filter);
    push_str(&mut html, bar.as_str());
    let ghost before_cards = html@;
    if cards.len() == 0 {
        push_str(&mut html, "<div class='empty'>No notes for this filter.</div>");
    } else {
        push_str(&mut html, "<div class='grid'>");
        let ghost grid_start = html@;
        let nc = cards.len();
        let mut k: usize = 0;
        while k < nc
            invariant
                nc == cards@.len(),
                k <= nc,
                html@ == grid_start + cards_html(card_views(cards@), k as int),
            decreases nc - k,
        {
            assert(card_views(cards@)[k as int] == card_view(cards@[k as int]));
            let ch = card_html_exec(&cards[k]);
            push_str(&mut html, ch.as_str());
            k += 1;
            assert(html@ =~= grid_start + cards_html(card_views(cards@), k as int));
        }
        push_str(&mut html, "</div>");
    }
    push_str(&mut html, "</div></body></html>");
    assert(html@ =~= root_page_spec(n_notes as nat, filter@, tags@, card_views(cards@)));
    html
}

/// The first `max_len` bytes of a file, decoded leniently.
pub fn small_text(bytes: &[u8], max_len: usize) -> (s: String)
    ensures
        s@ == utf8_lossy(bytes@.take(if bytes@.len() < max_len { bytes@.len() as int } else { max_len as int })),
{
    let n = if bytes.len() < max_len { bytes.len() } else { max_len };
    let mut head: Vec<u8> = Vec::new();
    let mut i: usize = 0;
    while i < n
        invariant
            n <= bytes@.len(),
            i <= n,
            head@ == bytes@.take(i as int),
        decreases n - i,
    {
        head.push(bytes[i]);
        i += 1;
        assert(head@ =~= bytes@.take(i as int));
    }
    lossy_text(head.as_slice())
}

/// At most the first `max` bytes of the file, decoded lossily (empty when the
/// file is missing).
pub open spec fn stored_small_text(files: Map<Seq<char>, Seq<u8>>, path: Seq<char>, max: nat) -> Seq<char> {
    if files.contains_key(path) {
        let b = files[path];
        utf8_lossy(b.take(if b.len() < max { b.len() as int } else { max as int }))
    } else {
        seq![]
    }
}

/// Read at most `max_len` bytes of a file as text (empty when missing).
fn read_small_file<S: FileStorage>(storage: &S, path: &str, max_len: usize) -> (r: CoreResult<String>)
    ensures
        r matches Ok(s) ==> s@ == stored_small_text(storage.files(), path@, max_len as nat),
        storage.reliable() ==> r is Ok,
{
    let bytes = match storage.read_bytes(path)? {
        Some(b) => b,
        None => return Ok(String::new()),
    };
    let s = small_text(bytes.as_slice(), max_len);
    Ok(s)
}

/// The row passes the page's tag filter.
pub open spec fn shown_by(filter: Seq<char>, e: NoteView) -> bool {
    filter == "All"@ || e.1 == filter
}

/// Rows `lo .. hi` that pass the filter, highest first.
pub open spec fn shown_rows(es: Seq<NoteView>, filter: Seq<char>, lo: int, hi: int) -> Seq<NoteView>
    decreases hi - lo,
{
    if lo >= hi {
        seq![]
    } else {
        shown_rows(es, filter, lo + 1, hi) + if shown_by(filter, es[lo]) { seq![es[lo]] } else { seq![] }
    }
}

/// Cards built for these rows, in the same order.
pub open spec fn cards_for(cards: Seq<CardView>, rows: Seq<NoteView>) -> bool {
    &&& cards.len() == rows.len()
    &&& forall|i: int|
        0 <= i < cards.len() ==> {
            &&& (#[trigger] cards[i]).0 == rows[i].0
            &&& cards[i].1 == rows[i].1
            &&& cards[i].2 == rows[i].2
        }
}

pub open spec fn filter_of(q: Seq<(Seq<char>, Seq<char>)>) -> Seq<char> {
    match param_spec(q, "tag"@) {
        Some(t) => t,
        None => "All"@,
    }
}

/// With no row passing the filter no file is read.
proof fn lemma_no_shown_rows(es: Seq<NoteView>, filter: Seq<char>, lo: int, hi: int)
    requires
        shown_rows(es, filter, lo, hi).len() == 0,
    ensures
        forall|k: int| lo <= k < hi ==> !shown_by(filter, #[trigger] es[k]),
    decreases hi - lo,
{
    if lo < hi {
        lemma_no_shown_rows(es, filter, lo + 1, hi);
    }
}

/// The card a shown row gets from the files: its transcript (the first 1200
/// bytes of its `.txt`), its `created_utc` (empty when missing), and whether its
/// `.wav` is there.
pub open spec fn card_from_files(files: Map<Seq<char>, Seq<u8>>, e: NoteView) -> CardView {
    let wav = files.contains_key(note_path_spec(e.0, "wav"@));
    (
        e.0,
        e.1,
        e.2,
        stored_small_text(files, note_path_spec(e.0, "txt"@), 1200),
        match stored_meta_value(files, e.0, "created_utc"@) {
            Some(c) => c,
            None => seq![],
        },
        wav,
        wav,
    )
}

/// The cards are those the files give for these rows.
pub open spec fn cards_read(cards: Seq<CardView>, rows: Seq<NoteView>, files: Map<Seq<char>, Seq<u8>>) -> bool {
    &&& cards.len() == rows.len()
    &&& forall|i: int| 0 <= i < cards.len() ==> #[trigger] cards[i] == card_from_files(files, rows[i])
}

/// Every shown row's meta file, when there, is UTF-8.
pub open spec fn root_meta_ok(files: Map<Seq<char>, Seq<u8>>, es: Seq<NoteView>, filter: Seq<char>) -> bool {
    forall|k: int| 0 <= k < es.len() && shown_by(filter, #[trigger] es[k]) ==> text_file_ok(files, note_path_spec(es[k].0, "meta"@))
}

/// What the root page answers for index `es`, tags `ts` and query `q`, on a store holding `files`.
pub open spec fn root_response(r: CoreResult<HttpResponse>, reliable: bool, files: Map<Seq<char>, Seq<u8>>, es: Seq<NoteView>, ts: Seq<Seq<char>>, q: Seq<(Seq<char>, Seq<char>)>) -> bool {
    &&& (shown_rows(es, filter_of(q), 0, es.len() as int).len() == 0 ==> r is Ok)
    &&& (reliable && root_meta_ok(files, es, filter_of(q)) ==> r is Ok)
    &&& (reliable ==> (r matches Ok(resp) ==> exists|cards: Seq<CardView>|
        #![trigger root_page_spec(es.len(), filter_of(q), ts, cards)]
        cards_read(cards, shown_rows(es, filter_of(q), 0, es.len() as int), files)
            && resp_view(resp).2 == encode_utf8(root_page_spec(es.len(), filter_of(q), ts, cards))))
    &&& (r matches Ok(resp) ==> exists|cards: Seq<CardView>|
        #![trigger root_page_spec(es.len(), filter_of(q), ts, cards)]
        cards_for(cards, shown_rows(es, filter_of(q), 0, es.len() as int))
            && resp_view(resp) == (
            200u16,
            "text/html; charset=utf-8"@,
            encode_utf8(root_page_spec(es.len(), filter_of(q), ts, cards)),
            None::<Seq<char>>,
            None::<Seq<char>>,
        ))
}

fn handle_root<S: FileStorage>(storage: &S, index: &IndexStore, tags: &TagStore, query: &[(String, String)]) -> (r:
    CoreResult<HttpResponse>)
    ensures
        root_response(r, storage.reliable(), storage.files(), index@, tags@, pairs_view(query@)),
{
    let filter = match query_param(query, "tag") {
        Some(t) => t,
        None => "All",
    };
    let n = index.entries.len();
    let mut cards: Vec<NoteCard> = Vec::new();
    let mut i: usize = n;
    assert(filter@ == filter_of(pairs_view(query@)));
    let ghost none_shown = shown_rows(index@, filter@, 0, n as int).len() == 0;
    proof {
        if none_shown {
            lemma_no_shown_rows(index@, filter@, 0, n as int);
        }
    }
    while i > 0
        invariant
            n == index@.len(),
            n == index.entries@.len(),
            i <= n,
            none_shown == (shown_rows(index@, filter@, 0, n as int).len() == 0),
            filter@ == filter_of(pairs_view(query@)),
            none_shown ==> forall|k: int| 0 <= k < n ==> !shown_by(filter@, #[trigger] index@[k]),
            cards_for(card_views(cards@), shown_rows(index@, filter@, i as int, n as int)),
            storage.reliable() ==> cards_read(card_views(cards@), shown_rows(index@, filter@, i as int, n as int), storage.files()),
        decreases i,
    {
        i -= 1;
        let e = &index.entries[i];
        assert(index@[i as int] == e@);
        let ghost before = cards@;
        if str_eq(filter, "All") || str_eq(e.tag.as_str(), filter) {
            proof {
                reveal_strlit("All");
                assert(shown_by(filter@, index@[i as int]));
            }
            let txt = note_path(e.num, "txt");
            let transcript = match read_small_file(storage, txt.as_str(), 1200) {
                Ok(t) => t,
                Err(_) => String::new(),
            };
            let probe = NoteCard {
                num: e.num,
                tag: owned(e.tag.as_str()),
                has_text: e.has_text,
                transcript,
                created: String::new(),
                audio: false,
                wav: false,
            };
            let created = match read_note_meta_value(storage, e.num, "created_utc")? {
                Some(c) => c,
                None => String::new(),
            };
            let wav = note_path(e.num, "wav");
            let audio = storage.path_exists(wav.as_str())?;
            let wav_link = storage.path_exists(wav.as_str())?;
            let card = NoteCard {
                num: probe.num,
                tag: probe.tag,
                has_text: probe.has_text,
                transcript: probe.transcript,
                created,
                audio,
                wav: wav_link,
            };
            cards.push(card);
            assert(card_views(cards@) =~= card_views(before).push(card_view(cards@.last())));
            proof {
                if storage.reliable() {
                    assert(card_view(card) == card_from_files(storage.files(), index@[i as int]));
                    assert(shown_rows(index@, filter@, i as int, n as int) == shown_rows(index@, filter@, i + 1, n as int).push(index@[i as int]));
                    assert(cards_read(card_views(cards@), shown_rows(index@, filter@, i as int, n as int), storage.files()));
                }
            }
        } else {
            proof {
                assert(!shown_by(filter@, index@[i as int]));
                assert(shown_rows(index@, filter@, i as int, n as int) =~= shown_rows(index@, filter@, i + 1, n as int));
            }
        }
        assert(cards_for(card_views(cards@), shown_rows(index@, filter@, i as int, n as int)));
    }
    let html = root_page(n, filter, tags, cards.as_slice());
    assert(filter@ == filter_of(pairs_view(query@)));
    assert(cards_for(card_views(cards@), shown_rows(index@, filter_of(pairs_view(query@)), 0, index@.len() as int)));
    let resp = HttpResponse::html(html);
    assert(resp_view(resp).2 == encode_utf8(root_page_spec(index@.len(), filter_of(pairs_view(query@)), tags@, card_views(cards@))));
    Ok(resp)
}

fn handle_api_notes(index: &IndexStore) -> (r: CoreResult<HttpResponse>)
    ensures
        r matches Ok(resp) && resp_view(resp) == (200u16, "application/json"@, encode_utf8(api_json(index@)), None::<Seq<char>>, None::<Seq<char>>),
{
    Ok(HttpResponse::json(api_notes_json(index)))
}

pub open spec fn export_view(n: ExportNote) -> (i32, Seq<char>, bool) {
    (n.num, n.tag@, n.has_text)
}

/// The export notes carry what the files hold for their rows: the first 4000
/// bytes of the `.txt` and the `created_utc` of the meta file.
pub open spec fn export_read(notes: Seq<ExportNote>, es: Seq<NoteView>, files: Map<Seq<char>, Seq<u8>>) -> bool {
    &&& notes.len() == es.len()
    &&& forall|i: int|
        0 <= i < notes.len() ==> {
            &&& (#[trigger] notes[i]).transcript@ == stored_small_text(files, note_path_spec(es[i].0, "txt"@), 4000)
            &&& text_view(notes[i].created_utc) == stored_meta_value(files, es[i].0, "created_utc"@)
        }
}

/// Every row's meta file, when there, is UTF-8.
pub open spec fn all_meta_ok(files: Map<Seq<char>, Seq<u8>>, es: Seq<NoteView>) -> bool {
    forall|k: int| 0 <= k < es.len() ==> text_file_ok(files, note_path_spec(#[trigger] es[k].0, "meta"@))
}

/// One export note per index row, same numbers, tags and flags.
fn build_export_notes<S: FileStorage>(storage: &S, index: &IndexStore) -> (r: CoreResult<Vec<ExportNote>>)
    ensures
        r matches Ok(v) ==> v@.map_values(|n: ExportNote| export_view(n)) == index@,
        index@.len() == 0 ==> r is Ok,
        storage.reliable() && all_meta_ok(storage.files(), index@) ==> r is Ok,
        storage.reliable() ==> (r matches Ok(v) ==> export_read(v@, index@, storage.files())),
{
    let mut out: Vec<ExportNote> = Vec::new();
    let n = index.entries.len();
    let mut i: usize = 0;
    while i < n
        invariant
            n == index@.len(),
            n == index.entries@.len(),
            i <= n,
            out@.map_values(|x: ExportNote| export_view(x)) == index@.take(i as int),
            storage.reliable() ==> export_read(out@, index@.take(i as int), storage.files()),
        decreases n - i,
    {
        let e = &index.entries[i];
        let txt = note_path(e.num, "txt");
        let transcript = match read_small_file(storage, txt.as_str(), 4000) {
            Ok(t) => t,
            Err(_) => String::new(),
        };
        assert(index@[i as int].0 == e.num);
        assert(all_meta_ok(storage.files(), index@) ==> text_file_ok(storage.files(), note_path_spec(index@[i as int].0, "meta"@)));
        let created = read_note_meta_value(storage, e.num, "created_utc")?;
        let ghost before = out@;
        let note = ExportNote { num: e.num, tag: owned(e.tag.as_str()), created_utc: created, transcript, has_text: e.has_text };
        assert(index@[i as int] == e@);
        assert(export_view(note) == index@[i as int]);
        out.push(note);
        assert(out@.map_values(|x: ExportNote| export_view(x)) =~= before.map_values(|x: ExportNote| export_view(x)).push(export_view(note)));
        assert(out@.map_values(|x: ExportNote| export_view(x)) =~= index@.take(i + 1));
        proof {
            if storage.reliable() {
                assert forall|k: int| 0 <= k < out@.len() implies {
                    &&& (#[trigger] out@[k]).transcript@ == stored_small_text(storage.files(), note_path_spec(index@.take(i + 1)[k].0, "txt"@), 4000)
                    &&& text_view(out@[k].created_utc) == stored_meta_value(storage.files(), index@.take(i + 1)[k].0, "created_utc"@)
                } by {
                    if k < i {
                        assert(index@.take(i + 1)[k] == index@.take(i as int)[k]);
                        assert(out@[k] == before[k]);
                    }
                }
            }
        }
        i += 1;
    }
    assert(index@.take(n as int) =~= index@);
    Ok(out)
}

/// What the text export answers for index `es` and query `q`, on a store holding `files`.
pub open spec fn export_response(r: CoreResult<HttpResponse>, reliable: bool, files: Map<Seq<char>, Seq<u8>>, es: Seq<NoteView>, q: Seq<(Seq<char>, Seq<char>)>) -> bool {
    &&& (es.len() == 0 ==> r is Ok)
    &&& (reliable && all_meta_ok(files, es) ==> r is Ok)
    &&& (reliable ==> (r matches Ok(resp) ==> exists|notes: Seq<ExportNote>|
        #![trigger export_from(export_header(filter_of(q)), notes, notes.len() as int, filter_of(q))]
        export_read(notes, es, files) && notes.map_values(|n: ExportNote| export_view(n)) == es
            && resp_view(resp).2 == encode_utf8(export_from(export_header(filter_of(q)), notes, notes.len() as int, filter_of(q)))))
    &&& (r matches Ok(resp) ==> exists|notes: Seq<ExportNote>|
        #![trigger export_from(export_header(filter_of(q)), notes, notes.len() as int, filter_of(q))]
        notes.map_values(|n: ExportNote| export_view(n)) == es && resp_view(resp) == (
            200u16,
            "text/plain; charset=utf-8"@,
            encode_utf8(export_from(export_header(filter_of(q)), notes, notes.len() as int, filter_of(q))),
            None::<Seq<char>>,
            Some(export_filename_spec(filter_of(q))),
        ))
}

fn handle_export_txt<S: FileStorage>(storage: &S, index: &IndexStore, query: &[(String, String)]) -> (r:
    CoreResult<HttpResponse>)
    ensures
        export_response(r, storage.reliable(), storage.files(), index@, pairs_view(query@)),
{
    let filter = match query_param(query, "tag") {
        Some(t) => t,
        None => "All",
    };
    let notes = build_export_notes(storage, index)?;
    let text = format_export_text(filter, notes.as_slice());
    let mut resp = HttpResponse::text(text);
    resp.attachment = Some(export_filename(filter));
    assert(filter@ == filter_of(pairs_view(query@)));
    assert(notes@.map_values(|n: ExportNote| export_view(n)) == index@);
    Ok(resp)
}

fn handle_tags_page(index: &IndexStore, tags: &TagStore, query: &[(String, String)]) -> (r: CoreResult<HttpResponse>)
    ensures
        r matches Ok(resp) && resp_view(resp) == (
            200u16,
            "text/html; charset=utf-8"@,
            encode_utf8(tags_page_spec(tags@, index@, param_spec(pairs_view(query@), "msg"@))),
            None::<Seq<char>>,
            None::<Seq<char>>,
        ),
{
    let msg = query_param(query, "msg");
    Ok(HttpResponse::html(tags_page(index, tags, msg)))
}

/// The name a tag form sent, once decoded.
pub open spec fn decoded(v: Seq<char>) -> Seq<char> {
    url_decode_from(plus_to_space(encode_utf8(v)), 0)
}

/// The tag list once a form has added the cleaned name `c`: unchanged when
/// `c` is empty, the list is full or already holds `c` ignoring case.
pub open spec fn tags_after_add(ts: Seq<Seq<char>>, c: Seq<char>) -> Seq<Seq<char>> {
    if c.len() == 0 || ts.len() >= crate::paths::MAX_TAGS || crate::storage::tags::contains_ic(ts, c) {
        ts
    } else {
        ts.push(c)
    }
}

/// What adding a tag by form does, for query `q`: the answer `r`, the files
/// `f0` to `f1` and the tag list `t0` to `t1`.
pub open spec fn tag_add_effect(
    r: CoreResult<HttpResponse>,
    reliable: bool,
    f0: Map<Seq<char>, Seq<u8>>,
    f1: Map<Seq<char>, Seq<u8>>,
    t0: Seq<Seq<char>>,
    t1: Seq<Seq<char>>,
    q: Seq<(Seq<char>, Seq<char>)>,
) -> bool {
    match param_spec(q, "name"@) {
        None => r matches Ok(resp) && resp_view(resp).3 == Some("/tags?msg=missing"@) && t1 == t0 && f1 == f0,
        Some(v) => {
            let c = sanitized_tag(decoded(v));
            let full = c.len() > 0 && t0.len() >= crate::paths::MAX_TAGS;
            &&& t1 == tags_after_add(t0, c)
            &&& (full ==> (r matches Err(CoreError::TagLimitReached(n)) && n == crate::paths::MAX_TAGS))
            &&& (reliable && !full ==> r is Ok)
            &&& (r matches Ok(resp) ==> resp_view(resp).3 == Some(
                if t1 == t0 {
                    "/tags?msg=exists"@
                } else {
                    "/tags?msg=added"@
                },
            ))
            &&& (t1 == t0 ==> f1 == f0)
            &&& (t1 != t0 && r is Ok ==> f1 == crate::storage::after_atomic_write(
                f0,
                crate::paths::TAG_FILE@,
                crate::paths::TAG_TMP@,
                encode_utf8(crate::storage::tags::tags_text(t1)),
            ))
        },
    }
}

fn handle_tag_add<S: FileStorage>(storage: &mut S, tags: &mut TagStore, query: &[(String, String)]) -> (r:
    CoreResult<HttpResponse>)
    requires
        param_spec(pairs_view(query@), "name"@) matches Some(v) ==> escapes_on_boundaries(v) && tag_name_cut_ok(decoded(v)),
    ensures
        tag_add_effect(
            r,
            old(storage).reliable(),
            old(storage).files(),
            final(storage).files(),
            old(tags)@,
            final(tags)@,
            pairs_view(query@),
        ),
        final(storage).reliable() == old(storage).reliable(),
        old(tags)@.len() <= crate::paths::MAX_TAGS ==> final(tags)@.len() <= crate::paths::MAX_TAGS,
{
    let name_raw = match query_param(query, "name") {
        Some(n) => n,
        None => return Ok(HttpResponse::redirect("/tags?msg=missing")),
    };
    let name = url_decode_simple(name_raw);
    let ok = add_custom_tag(storage, tags, name.as_str())?;
    proof {
        reveal_strlit("/tags?msg=added");
        reveal_strlit("/tags?msg=exists");
    }
    Ok(HttpResponse::redirect(if ok { "/tags?msg=added" } else { "/tags?msg=exists" }))
}

/// What deleting a tag by form does, for query `q`: the answer `r`, the files
/// `f0` to `f1`, the tag list `t0` to `t1` and the index `i0` to `i1`.
pub open spec fn tag_delete_effect(
    r: CoreResult<HttpResponse>,
    reliable: bool,
    f0: Map<Seq<char>, Seq<u8>>,
    f1: Map<Seq<char>, Seq<u8>>,
    t0: Seq<Seq<char>>,
    t1: Seq<Seq<char>>,
    i0: Seq<NoteView>,
    i1: Seq<NoteView>,
    q: Seq<(Seq<char>, Seq<char>)>,
) -> bool {
    match param_spec(q, "name"@) {
        None => r matches Ok(resp) && resp_view(resp).3 == Some("/tags?msg=missing"@) && t1 == t0 && i1 == i0 && f1
            == f0,
        Some(v) => {
            let name = decoded(v);
            if crate::text::eq_ignore_case(name, "Untagged"@) {
                r matches Ok(resp) && resp_view(resp).3 == Some("/tags?msg=protected"@) && t1 == t0 && i1 == i0 && f1
                    == f0
            } else {
                let (t2, deleted) = crate::storage::tags::tags_after_delete(t0, i0, name);
                &&& i1 == crate::storage::tags::index_after_delete(i0, name)
                &&& (reliable ==> r is Ok)
                &&& (t1 == t2 || t1 == crate::storage::tags::tags_with_untagged(t0, i0, name))
                &&& (r matches Ok(resp) ==> t1 == t2 && resp_view(resp).3 == Some(
                    if !deleted {
                        "/tags?msg=protected"@
                    } else if has_tag(i0, name) {
                        "/tags?msg=moved"@
                    } else {
                        "/tags?msg=deleted"@
                    },
                ))
            }
        },
    }
}

fn handle_tag_delete<S: FileStorage>(
    storage: &mut S,
    index: &mut IndexStore,
    tags: &mut TagStore,
    query: &[(String, String)],
) -> (r: CoreResult<HttpResponse>)
    requires
        param_spec(pairs_view(query@), "name"@) matches Some(v) ==> escapes_on_boundaries(v),
    ensures
        tag_delete_effect(
            r,
            old(storage).reliable(),
            old(storage).files(),
            final(storage).files(),
            old(tags)@,
            final(tags)@,
            old(index)@,
            final(index)@,
            pairs_view(query@),
        ),
        final(storage).reliable() == old(storage).reliable(),
        old(tags)@.len() <= crate::paths::MAX_TAGS ==> final(tags)@.len() <= crate::paths::MAX_TAGS,
{
    let name_raw = match query_param(query, "name") {
        Some(n) => n,
        None => return Ok(HttpResponse::redirect("/tags?msg=missing")),
    };
    let name = url_decode_simple(name_raw);
    let had = tag_has_notes(index, name.as_str());
    let ok = delete_tag(storage, tags, index, name.as_str())?;
    let loc = if ok && had {
        "/tags?msg=moved"
    } else if ok {
        "/tags?msg=deleted"
    } else {
        "/tags?msg=protected"
    };
    Ok(HttpResponse::redirect(loc))
}

/// The note number a request names: the `num` parameter as an `i32`, or 0.
pub open spec fn num_param(v: Seq<char>) -> i32 {
    match parse_i32_spec(v) {
        Some(n) => n,
        None => 0,
    }
}

/// What deleting a note by form does, for query `q`: the answer `r`, the
/// files `f0` to `f1` and the index `i0` to `i1`.
pub open spec fn note_delete_effect(
    r: CoreResult<HttpResponse>,
    reliable: bool,
    f0: Map<Seq<char>, Seq<u8>>,
    f1: Map<Seq<char>, Seq<u8>>,
    i0: Seq<NoteView>,
    i1: Seq<NoteView>,
    q: Seq<(Seq<char>, Seq<char>)>,
) -> bool {
    match param_spec(q, "num"@) {
        None => r matches Ok(resp) && resp_view(resp) == (400u16, "text/plain"@, encode_utf8("Missing num"@), None::<
            Seq<char>,
        >, None::<Seq<char>>) && i1 == i0 && f1 == f0,
        Some(v) => if num_param(v) <= 0 {
            r matches Ok(resp) && resp_view(resp) == (400u16, "text/plain"@, encode_utf8("Invalid num"@), None::<
                Seq<char>,
            >, None::<Seq<char>>) && i1 == i0 && f1 == f0
        } else {
            let n = num_param(v);
            &&& (i1 == i0 || i1 == remove_first(i0, n))
            &&& (reliable ==> r is Ok)
            &&& (r matches Ok(resp) ==> i1 == remove_first(i0, n) && resp_view(resp).3 == Some("/"@) && f1 == (
            if crate::storage::index::first_with_num(i0, n) is Some {
                crate::storage::after_atomic_write(
                    crate::storage::index::notes_removed(f0, n),
                    crate::paths::INDEX_FILE@,
                    crate::paths::INDEX_TMP@,
                    encode_utf8(crate::storage::index::index_text(i1)),
                )
            } else {
                crate::storage::index::notes_removed(f0, n)
            }))
        },
    }
}

fn handle_note_delete<S: FileStorage>(storage: &mut S, index: &mut IndexStore, query: &[(String, String)]) -> (r:
    CoreResult<HttpResponse>)
    ensures
        note_delete_effect(
            r,
            old(storage).reliable(),
            old(storage).files(),
            final(storage).files(),
            old(index)@,
            final(index)@,
            pairs_view(query@),
        ),
        final(storage).reliable() == old(storage).reliable(),
{
    let num_s = match query_param(query, "num") {
        Some(n) => n,
        None => return Ok(HttpResponse::bad_request("Missing num")),
    };
    let cs = chars_of(num_s);
    let num: i32 = match parse_i32(&cs) {
        Some(n) => n,
        None => 0,
    };
    if num <= 0 {
        return Ok(HttpResponse::bad_request("Invalid num"));
    }
    delete_note(storage, index, num)?;
    Ok(HttpResponse::redirect("/"))
}

/// Download name of a note file: `note_NNN.ext`.
pub open spec fn attach_name(num: i32, ext: Seq<char>) -> Seq<char> {
    "note_"@ + fmt_int(num as int, 3) + "."@ + ext
}

/// What a file download answers for query `q`, on a store holding `files`.
pub open spec fn file_response(r: CoreResult<HttpResponse>, reliable: bool, files: Map<Seq<char>, Seq<u8>>, ext: Seq<char>, mime: Seq<char>, attachment: bool, q: Seq<(Seq<char>, Seq<char>)>) -> bool {
    &&& (match param_spec(q, "num"@) {
        None => r matches Ok(resp) && resp_view(resp) == (400u16, "text/plain"@, encode_utf8("Missing num"@), None::<Seq<char>>, None::<Seq<char>>),
        Some(v) => if num_param(v) <= 0 {
            r matches Ok(resp) && resp_view(resp) == (400u16, "text/plain"@, encode_utf8("Invalid num"@), None::<Seq<char>>, None::<Seq<char>>)
        } else {
            let path = note_path_spec(num_param(v), ext);
            &&& (r matches Ok(resp) ==> if files.contains_key(path) {
                resp_view(resp) == (200u16, mime, files[path], None::<Seq<char>>, if attachment {
                    Some(attach_name(num_param(v), ext))
                } else {
                    None
                })
            } else {
                resp_view(resp) == (404u16, "text/plain"@, encode_utf8("Not found"@), None::<Seq<char>>, None::<Seq<char>>)
            })
            &&& (reliable ==> r is Ok)
        },
    })
}

fn send_file_by_num<S: FileStorage>(storage: &S, ext: &str, mime: &str, attachment: bool, query: &[(String, String)]) -> (r:
    CoreResult<HttpResponse>)
    ensures
        file_response(r, storage.reliable(), storage.files(), ext@, mime@, attachment, pairs_view(query@)),
{
    let num_s = match query_param(query, "num") {
        Some(n) => n,
        None => return Ok(HttpResponse::bad_request("Missing num")),
    };
    let cs = chars_of(num_s);
    let num: i32 = match parse_i32(&cs) {
        Some(n) => n,
        None => 0,
    };
    if num <= 0 {
        return Ok(HttpResponse::bad_request("Invalid num"));
    }
    let path = note_path(num, ext);
    let data = match storage.read_bytes(path.as_str())? {
        Some(d) => d,
        None => return Ok(HttpResponse::not_found()),
    };
    let attach = if attachment {
        let mut a = String::new();
        push_str(&mut a, "note_");
        crate::text::push_int_padded(&mut a, num as i64, 3);
        push_str(&mut a, ".");
        push_str(&mut a, ext);
        assert(a@ =~= attach_name(num, ext@));
        Some(a)
    } else {
        None
    };
    Ok(HttpResponse::file(mime, data, attach))
}

/// Which handler serves a request.
#[derive(Debug, Clone, Copy, PartialEq, Eq, Structural)]
pub enum PortalRoute {
    Root,
    ApiNotes,
    ExportTxt,
    Tags,
    TagAdd,
    TagDelete,
    NoteDelete,
    Txt,
    Wav,
    Audio,
    NotFound,
}

pub open spec fn route_spec(method: Seq<char>, route: Seq<char>) -> PortalRoute {
    if method != "GET"@ {
        PortalRoute::NotFound
    } else if route == "/"@ {
        PortalRoute::Root
    } else if route == "/api/notes"@ {
        PortalRoute::ApiNotes
    } else if route == "/export.txt"@ {
        PortalRoute::ExportTxt
    } else if route == "/tags"@ {
        PortalRoute::Tags
    } else if route == "/tag/add"@ {
        PortalRoute::TagAdd
    } else if route == "/tag/delete"@ {
        PortalRoute::TagDelete
    } else if route == "/note/delete"@ {
        PortalRoute::NoteDelete
    } else if route == "/txt"@ {
        PortalRoute::Txt
    } else if route == "/wav"@ {
        PortalRoute::Wav
    } else if route == "/audio"@ {
        PortalRoute::Audio
    } else {
        PortalRoute::NotFound
    }
}

/// The handler for a method and route.
pub fn route_of(method: &str, route: &str) -> (r: PortalRoute)
    ensures
        r == route_spec(method@, route@),
{
    if !str_eq(method, "GET") {
        PortalRoute::NotFound
    } else if str_eq(route, "/") {
        PortalRoute::Root
    } else if str_eq(route, "/api/notes") {
        PortalRoute::ApiNotes
    } else if str_eq(route, "/export.txt") {
        PortalRoute::ExportTxt
    } else if str_eq(route, "/tags") {
        PortalRoute::Tags
    } else if str_eq(route, "/tag/add") {
        PortalRoute::TagAdd
    } else if str_eq(route, "/tag/delete") {
        PortalRoute::TagDelete
    } else if str_eq(route, "/note/delete") {
        PortalRoute::NoteDelete
    } else if str_eq(route, "/txt") {
        PortalRoute::Txt
    } else if str_eq(route, "/wav") {
        PortalRoute::Wav
    } else if str_eq(route, "/audio") {
        PortalRoute::Audio
    } else {
        PortalRoute::NotFound
    }
}

/// A tag form's name parameter can be decoded and cleaned without a panic.
pub open spec fn portal_request_ok(method: Seq<char>, path: Seq<char>) -> bool {
    let (route, q) = parse_query_spec(path);
    &&& (route_spec(method, route) == PortalRoute::TagAdd ==> (param_spec(q, "name"@) matches Some(v)
        ==> escapes_on_boundaries(v) && tag_name_cut_ok(decoded(v))))
    &&& (route_spec(method, route) == PortalRoute::TagDelete ==> (param_spec(q, "name"@) matches Some(v)
        ==> escapes_on_boundaries(v)))
}

/// Whether a request may be handed to `handle_portal_request` or
/// `serve_portal`: `true` exactly when `portal_request_ok` holds.
pub fn portal_request_ready(method: &str, path: &str) -> (r: bool)
    ensures
        r == portal_request_ok(method@, path@),
{
    let (route, query) = parse_query(path);
    let which = route_of(method, route.as_str());
    if which == PortalRoute::TagAdd || which == PortalRoute::TagDelete {
        match query_param(query.as_slice(), "name") {
            Some(v) => {
                if !escapes_ok(v) {
                    return false;
                }
                if which == PortalRoute::TagAdd {
                    let name = url_decode_simple(v);
                    return tag_name_ok(name.as_str());
                }
                true
            },
            None => true,
        }
    } else {
        true
    }
}

/// Dispatch a portal request (its query is read from the path).
pub fn handle_portal_request<S: FileStorage>(
    storage: &mut S,
    index: &mut IndexStore,
    tags: &mut TagStore,
    req: &HttpRequest,
) -> (r: CoreResult<HttpResponse>)
    requires
        portal_request_ok(req.method@, req.path@),
    ensures
        ({
            let (route, q) = parse_query_spec(req.path@);
            let which = route_spec(req.method@, route);
            &&& which == PortalRoute::NotFound ==> (r matches Ok(resp) && resp_view(resp) == (404u16, "text/plain"@, encode_utf8("Not found"@), None::<Seq<char>>, None::<Seq<char>>))
            &&& which == PortalRoute::ApiNotes ==> (r matches Ok(resp) && resp_view(resp) == (200u16, "application/json"@, encode_utf8(api_json(old(index)@)), None::<Seq<char>>, None::<Seq<char>>))
            &&& which == PortalRoute::Tags ==> (r matches Ok(resp) && resp_view(resp) == (200u16, "text/html; charset=utf-8"@, encode_utf8(tags_page_spec(old(tags)@, old(index)@, param_spec(q, "msg"@))), None::<Seq<char>>, None::<Seq<char>>))
            &&& which != PortalRoute::TagDelete && which != PortalRoute::NoteDelete ==> final(index)@ == old(index)@
            &&& which != PortalRoute::TagAdd && which != PortalRoute::TagDelete ==> final(tags)@ == old(tags)@
            &&& which == PortalRoute::TagAdd ==> tag_add_effect(r, old(storage).reliable(), old(storage).files(), final(storage).files(), old(tags)@, final(tags)@, q)
            &&& which == PortalRoute::TagDelete ==> tag_delete_effect(r, old(storage).reliable(), old(storage).files(), final(storage).files(), old(tags)@, final(tags)@, old(index)@, final(index)@, q)
            &&& which == PortalRoute::NoteDelete ==> note_delete_effect(r, old(storage).reliable(), old(storage).files(), final(storage).files(), old(index)@, final(index)@, q)
            &&& which == PortalRoute::Root ==> root_response(r, old(storage).reliable(), old(storage).files(), old(index)@, old(tags)@, q)
            &&& which == PortalRoute::ExportTxt ==> export_response(r, old(storage).reliable(), old(storage).files(), old(index)@, q)
            &&& which == PortalRoute::Txt ==> file_response(r, old(storage).reliable(), old(storage).files(), "txt"@, "text/plain"@, true, q)
            &&& which == PortalRoute::Wav ==> file_response(r, old(storage).reliable(), old(storage).files(), "wav"@, "audio/wav"@, true, q)
            &&& which == PortalRoute::Audio ==> file_response(r, old(storage).reliable(), old(storage).files(), "wav"@, "audio/wav"@, false, q)
            &&& which != PortalRoute::TagAdd && which != PortalRoute::TagDelete && which != PortalRoute::NoteDelete
                ==> *final(storage) == *old(storage)
        }),
        old(tags)@.len() <= crate::paths::MAX_TAGS ==> final(tags)@.len() <= crate::paths::MAX_TAGS,
{
    let (route, query) = parse_query(req.path.as_str());
    assert((route@, pairs_view(query@)) == parse_query_spec(req.path@));
    match route_of(req.method.as_str(), route.as_str()) {
        PortalRoute::Root => handle_root(storage, index, tags, query.as_slice()),
        PortalRoute::ApiNotes => handle_api_notes(index),
        PortalRoute::ExportTxt => handle_export_txt(storage, index, query.as_slice()),
        PortalRoute::Tags => handle_tags_page(index, tags, query.as_slice()),
        PortalRoute::TagAdd => handle_tag_add(storage, tags, query.as_slice()),
        PortalRoute::TagDelete => handle_tag_delete(storage, index, tags, query.as_slice()),
        PortalRoute::NoteDelete => handle_note_delete(storage, index, query.as_slice()),
        PortalRoute::Txt => send_file_by_num(storage, "txt", "text/plain", true, query.as_slice()),
        PortalRoute::Wav => send_file_by_num(storage, "wav", "audio/wav", true, query.as_slice()),
        PortalRoute::Audio => send_file_by_num(storage, "wav", "audio/wav", false, query.as_slice()),
        PortalRoute::NotFound => Ok(HttpResponse::not_found()),
    }
}

/// Load stores from SD and serve one request (portal loop helper).
pub fn serve_portal<S: FileStorage>(
    storage: &mut S,
    index: &mut IndexStore,
    tags: &mut TagStore,
    req: HttpRequest,
) -> (r: CoreResult<HttpResponse>)
    requires
        portal_request_ok(req.method@, req.path@),
    ensures
        r is Ok ==> final(tags)@.len() <= crate::paths::MAX_TAGS,
        ({
            let (route, q) = parse_query_spec(req.path@);
            let which = route_spec(req.method@, route);
            &&& which == PortalRoute::NotFound ==> (r matches Ok(resp) ==> resp_view(resp) == (404u16, "text/plain"@, encode_utf8("Not found"@), None::<Seq<char>>, None::<Seq<char>>))
            &&& which == PortalRoute::ApiNotes ==> (r matches Ok(resp) ==> resp_view(resp) == (200u16, "application/json"@, encode_utf8(api_json(final(index)@)), None::<Seq<char>>, None::<Seq<char>>))
            &&& which == PortalRoute::Tags ==> (r matches Ok(resp) ==> resp_view(resp) == (200u16, "text/html; charset=utf-8"@, encode_utf8(tags_page_spec(final(tags)@, final(index)@, param_spec(q, "msg"@))), None::<Seq<char>>, None::<Seq<char>>))
            &&& which == PortalRoute::Root ==> (r is Ok ==> root_response(r, final(storage).reliable(), final(storage).files(), final(index)@, final(tags)@, q))
            &&& which == PortalRoute::ExportTxt ==> (r is Ok ==> export_response(r, final(storage).reliable(), final(storage).files(), final(index)@, q))
            &&& which == PortalRoute::Txt ==> (r is Ok ==> file_response(r, final(storage).reliable(), final(storage).files(), "txt"@, "text/plain"@, true, q))
            &&& which == PortalRoute::Wav ==> (r is Ok ==> file_response(r, final(storage).reliable(), final(storage).files(), "wav"@, "audio/wav"@, true, q))
            &&& which == PortalRoute::Audio ==> (r is Ok ==> file_response(r, final(storage).reliable(), final(storage).files(), "wav"@, "audio/wav"@, false, q))
        }),
        r is Ok ==> ({
            let (route, q) = parse_query_spec(req.path@);
            let which = route_spec(req.method@, route);
            let f0 = old(storage).files();
            let i_mid = crate::storage::index::loaded_rows(crate::storage::file_text(f0, crate::paths::INDEX_FILE@));
            let f_mid = crate::storage::tags::files_after_tag_load(f0);
            crate::storage::tags::loaded_tags(crate::storage::file_text(f0, crate::paths::TAG_FILE@)) matches Some(t_mid)
            && (which == PortalRoute::TagAdd ==> tag_add_effect(r, old(storage).reliable(), f_mid, final(storage).files(), t_mid, final(tags)@, q))
            && (which == PortalRoute::TagDelete ==> tag_delete_effect(r, old(storage).reliable(), f_mid, final(storage).files(), t_mid, final(tags)@, i_mid, final(index)@, q))
            && (which == PortalRoute::NoteDelete ==> note_delete_effect(r, old(storage).reliable(), f_mid, final(storage).files(), i_mid, final(index)@, q))
        }),
{
    load_index(storage, index)?;
    load_tags(storage, tags)?;
    handle_portal_request(storage, index, tags, &req)
}

} // verus!
