//! Minimal Whisper JSON `"text"` extraction.
use vstd::prelude::*;
use vstd::utf8::encode_utf8;

use crate::text::push_char;

verus! {

/// The bytes of `"text":"`.
pub open spec fn text_marker() -> Seq<u8> {
    seq![34u8, 116, 101, 120, 116, 34, 58, 34]
}

/// `b` holds the marker at `i`.
pub open spec fn marker_at(b: Seq<u8>, i: int) -> bool {
    0 <= i && i + 8 <= b.len() && b.subrange(i, i + 8) == text_marker()
}

/// First position of the marker, if any.
pub open spec fn find_marker(b: Seq<u8>) -> Option<int> {
    if exists|i: int| marker_at(b, i) {
        Some(choose|i: int| marker_at(b, i) && forall|j: int| 0 <= j < i ==> !marker_at(b, j))
    } else {
        None
    }
}

/// Position of the closing quote scanning from `j`, stepping over escape pairs;
/// `b.len()` or beyond when there is none.
pub open spec fn scan_end(b: Seq<u8>, j: int) -> int
    decreases b.len() - j,
{
    if j < 0 || j >= b.len() {
        j
    } else if b[j] == 92 && j + 1 < b.len() {
        scan_end(b, j + 2)
    } else if b[j] == 34 {
        j
    } else {
        scan_end(b, j + 1)
    }
}

/// The character an escape `\x` stands for.
pub open spec fn unescape_char(x: u8) -> char {
    if x == 34 {
        '"'
    } else if x == 92 {
        '\\'
    } else if x == 110 {
        ' '
    } else {
        x as char
    }
}

/// Bytes `b[i..end]` decoded one byte per character with escapes resolved.
pub open spec fn unescape(b: Seq<u8>, i: int, end: int) -> Seq<char>
    decreases end - i,
{
    if i >= end || i < 0 {
        seq![]
    } else if b[i] == 92 && i + 1 < end {
        seq![unescape_char(b[i + 1])] + unescape(b, i + 2, end)
    } else {
        seq![b[i] as char] + unescape(b, i + 1, end)
    }
}

/// The `text` field of a Whisper response, or `None` when it is absent,
/// unterminated or empty.
pub open spec fn whisper_text_spec(b: Seq<u8>) -> Option<Seq<char>> {
    match find_marker(b) {
        None => None,
        Some(m) => {
            let start = m + 8;
            let end = scan_end(b, start);
            if end >= b.len() {
                None
            } else {
                let t = unescape(b, start, end);
                if t.len() == 0 {
                    None
                } else {
                    Some(t)
                }
            }
        },
    }
}

fn marker_matches(bytes: &[u8], i: usize) -> (r: bool)
    requires
        i + 8 <= bytes@.len(),
    ensures
        r == marker_at(bytes@, i as int),
{
    let n = bytes.len();
    let m: [u8; 8] = [34u8, 116, 101, 120, 116, 34, 58, 34];
    assert(m@ =~= text_marker());
    let mut k: usize = 0;
    while k < 8
        invariant
            i + 8 <= bytes@.len(),
            n == bytes@.len(),
            m@ == text_marker(),
            k <= 8,
            forall|j: int| 0 <= j < k ==> bytes@[i + j] == m@[j],
        decreases 8 - k,
    {
        if bytes[i + k] != m[k] {
            assert(bytes@.subrange(i as int, i + 8)[k as int] != text_marker()[k as int]);
            return false;
        }
        k += 1;
    }
    assert(bytes@.subrange(i as int, i + 8) =~= text_marker());
    true
}

fn find_marker_index(bytes: &[u8]) -> (r: Option<usize>)
    ensures
        match r {
            Some(i) => marker_at(bytes@, i as int) && forall|j: int|
                0 <= j < i ==> !marker_at(bytes@, j),
            None => forall|j: int| !marker_at(bytes@, j),
        },
{
    let n = bytes.len();
    let mut i: usize = 0;
    while i < n
        invariant
            n == bytes@.len(),
            i <= n,
            forall|j: int| 0 <= j < i ==> !marker_at(bytes@, j),
        decreases n - i,
    {
        if n - i >= 8 && marker_matches(bytes, i) {
            return Some(i);
        }
        i += 1;
    }
    None
}

/// Extract the `"text":"..."` field from a Whisper API JSON response.
pub fn parse_whisper_text(resp: &str) -> (r: Option<String>)
    ensures
        match whisper_text_spec(encode_utf8(resp@)) {
            Some(t) => r matches Some(s) && s@ == t,
            None => r is None,
        },
{
    let bytes = resp.as_bytes();
    let ghost b = bytes@;
    assert(b == encode_utf8(resp@));
    let n = bytes.len();
    let i = match find_marker_index(bytes) {
        Some(i) => i,
        None => return None,
    };
    proof {
        let c = choose|k: int| marker_at(b, k) && forall|j: int| 0 <= j < k ==> !marker_at(b, j);
        assert(c == i) by {
            if c < i {
            } else if c > i {
            }
        }
    }
    let start = i + 8;
    let mut end = start;
    while end < n
        invariant
            b == bytes@,
            n == b.len(),
            start <= end,
            scan_end(b, start as int) == scan_end(b, end as int),
        ensures
            b == bytes@,
            n == b.len(),
            start <= end,
            end >= n || scan_end(b, start as int) == end,
        decreases n - end,
    {
        if bytes[end] == 92 && end + 1 < n {
            end += 2;
            continue;
        }
        if bytes[end] == 34 {
            assert(scan_end(b, end as int) == end);
            break;
        }
        end += 1;
    }
    if end >= n {
        return None;
    }
    let mut text = String::new();
    let mut k = start;
    while k < end
        invariant
            b == bytes@,
            n == b.len(),
            start <= k,
            end < n,
            k <= end + 1,
            text@ + unescape(b, k as int, end as int) == unescape(b, start as int, end as int),
        decreases end + 1 - k,
    {
        if bytes[k] == 92 && k + 1 < end {
            let nx = bytes[k + 1];
            let c = if nx == 34 {
                '"'
            } else if nx == 92 {
                '\\'
            } else if nx == 110 {
                ' '
            } else {
                nx as char
            };
            push_char(&mut text, c);
            k += 2;
        } else {
            push_char(&mut text, bytes[k] as char);
            k += 1;
        }
    }
    assert(text@ =~= unescape(b, start as int, end as int));
    assert(find_marker(b) == Some(i as int));
    assert(scan_end(b, start as int) == end);
    if text.as_str().is_empty() {
        None
    } else {
        Some(text)
    }
}

/// One byte as it stands inside a JSON string: `"` and `\\` escaped, any
/// other byte as it is.
pub open spec fn json_escape_byte(x: u8) -> Seq<u8> {
    if x == 34 {
        seq![92u8, 34u8]
    } else if x == 92 {
        seq![92u8, 92u8]
    } else {
        seq![x]
    }
}

/// Bytes as they stand inside a JSON string.
pub open spec fn json_escape(t: Seq<u8>) -> Seq<u8>
    decreases t.len(),
{
    if t.len() == 0 {
        seq![]
    } else {
        json_escape_byte(t[0]) + json_escape(t.drop_first())
    }
}

/// The bytes read one character each, as the parser reads them.
pub open spec fn byte_chars(t: Seq<u8>) -> Seq<char> {
    t.map_values(|x: u8| x as char)
}

proof fn lemma_scan_escaped(b: Seq<u8>, j: int, t: Seq<u8>)
    requires
        0 <= j,
        j + json_escape(t).len() < b.len(),
        b.subrange(j, j + json_escape(t).len()) == json_escape(t),
        b[j + json_escape(t).len()] == 34,
    ensures
        scan_end(b, j) == j + json_escape(t).len(),
        unescape(b, j, j + json_escape(t).len()) == byte_chars(t),
    decreases t.len(),
{
    let e = json_escape(t);
    let end = j + e.len();
    if t.len() > 0 {
        let c = t[0];
        let rest = t.drop_first();
        let ce = json_escape_byte(c);
        assert(e == ce + json_escape(rest));
        let k = ce.len();
        assert(b.subrange(j + k, j + k + json_escape(rest).len()) =~= json_escape(rest)) by {
            assert forall|x: int| 0 <= x < json_escape(rest).len() implies b.subrange(j + k, j + k + json_escape(rest).len())[x]
                == json_escape(rest)[x] by {
                assert(b.subrange(j, end)[k + x] == e[k + x]);
            }
        }
        assert(b[j] == b.subrange(j, end)[0]);
        if c == 34 || c == 92 {
            assert(b[j + 1] == b.subrange(j, end)[1]);
            assert(unescape_char(b[j + 1]) == (c as char));
        }
        lemma_scan_escaped(b, j + k, rest);
        assert(byte_chars(t) =~= seq![c as char] + byte_chars(rest));
        assert(unescape(b, j, end) =~= byte_chars(t));
    } else {
        assert(unescape(b, j, end) =~= byte_chars(t));
    }
}

/// Non-empty text, escaped into a response's `text` field, reads back as its
/// bytes, one character each (for ASCII, the text itself).
pub proof fn lemma_whisper_text_round_trip(t: Seq<u8>)
    requires
        t.len() > 0,
    ensures
        whisper_text_spec(text_marker() + json_escape(t) + seq![34u8]) == Some(byte_chars(t)),
{
    let e = json_escape(t);
    let b = text_marker() + e + seq![34u8];
    assert(b.subrange(0, 8) =~= text_marker());
    assert(marker_at(b, 0));
    let m = choose|i: int| marker_at(b, i) && forall|j: int| 0 <= j < i ==> !marker_at(b, j);
    assert(m == 0) by {
        if m > 0 {
            assert(!marker_at(b, 0));
        }
    }
    assert(b.subrange(8, 8 + e.len() as int) =~= e);
    assert(b[8 + e.len() as int] == 34);
    lemma_scan_escaped(b, 8, t);
}

/// Non-empty text escaped into the `text` field anywhere in a response reads
/// back as its bytes, one character each, whatever stands before the field
/// (when it holds no earlier marker) and after it; an empty field reads as
/// nothing.
pub proof fn lemma_whisper_text_in_response(pre: Seq<u8>, t: Seq<u8>, post: Seq<u8>)
    requires
        forall|i: int| 0 <= i < pre.len() ==> !marker_at(pre + text_marker(), i),
    ensures
        t.len() > 0 ==> whisper_text_spec(pre + text_marker() + json_escape(t) + seq![34u8] + post) == Some(
            byte_chars(t),
        ),
        whisper_text_spec(pre + text_marker() + seq![34u8] + post) == None::<Seq<char>>,
{
    lemma_field_at(pre, t, post);
    lemma_field_at(pre, Seq::empty(), post);
    assert(json_escape(Seq::<u8>::empty()) =~= Seq::<u8>::empty());
    assert(pre + text_marker() + json_escape(Seq::<u8>::empty()) + seq![34u8] + post =~= pre + text_marker()
        + seq![34u8] + post);
    assert(byte_chars(Seq::<u8>::empty()) =~= Seq::<char>::empty());
}

proof fn lemma_field_at(pre: Seq<u8>, t: Seq<u8>, post: Seq<u8>)
    requires
        forall|i: int| 0 <= i < pre.len() ==> !marker_at(pre + text_marker(), i),
    ensures
        ({
            let b = pre + text_marker() + json_escape(t) + seq![34u8] + post;
            let start: int = pre.len() as int + 8;
            &&& find_marker(b) == Some(pre.len() as int)
            &&& scan_end(b, start) == start + json_escape(t).len()
            &&& scan_end(b, start) < b.len()
            &&& unescape(b, start, start + json_escape(t).len() as int) == byte_chars(t)
        }),
{
    let e = json_escape(t);
    let pm = pre + text_marker();
    let b = pre + text_marker() + e + seq![34u8] + post;
    let p = pre.len() as int;
    assert(b.subrange(p, p + 8) =~= text_marker());
    assert(marker_at(b, p));
    assert forall|i: int| 0 <= i < p implies !marker_at(b, i) by {
        assert(!marker_at(pm, i));
        assert(b.subrange(i, i + 8) =~= pm.subrange(i, i + 8));
    }
    let m = choose|i: int| marker_at(b, i) && forall|j: int| 0 <= j < i ==> !marker_at(b, j);
    assert(m == p) by {
        if m > p {
            assert(!marker_at(b, p));
        }
    }
    assert(b.subrange(p + 8, p + 8 + e.len() as int) =~= e);
    assert(b[p + 8 + e.len() as int] == 34);
    lemma_scan_escaped(b, p + 8, t);
}

} // verus!
