//! UPI deep-link helpers for Bharat QR / UPI intent strings.
use vstd::prelude::*;
use vstd::utf8::encode_utf8;

use crate::text::{chars_of, push_char, push_str, string_from_chars};

verus! {

/// Upper-case hex digit for `d` (`0 <= d < 16`).
pub open spec fn hex_upper(d: int) -> char {
    if d < 10 {
        ((d + 48) as u8) as char
    } else {
        ((d + 55) as u8) as char
    }
}

/// Bytes that stay as they are in a UPI query value.
pub open spec fn is_unreserved(b: u8) -> bool {
    (65 <= b <= 90) || (97 <= b <= 122) || (48 <= b <= 57) || b == 45 || b == 95 || b == 46 || b
        == 126 || b == 64
}

/// Percent-encoding of one byte.
pub open spec fn encode_byte(b: u8) -> Seq<char> {
    if is_unreserved(b) {
        seq![b as char]
    } else if b == 32 {
        seq!['%', '2', '0']
    } else {
        seq!['%', hex_upper((b / 16) as int), hex_upper((b % 16) as int)]
    }
}

/// Percent-encoding of a byte string, byte by byte.
pub open spec fn url_encode_spec(bs: Seq<u8>) -> Seq<char>
    decreases bs.len(),
{
    if bs.len() == 0 {
        seq![]
    } else {
        url_encode_spec(bs.drop_last()) + encode_byte(bs.last())
    }
}

/// `upi://pay?pa=…&pn=…`, then `&am=…` when given, `&cu=INR`, and `&tn=…`
/// when given.
pub open spec fn upi_uri_spec(vpa: Seq<char>, payee: Seq<char>, amount: Seq<char>, note: Seq<char>) -> Seq<char> {
    let base = "upi://pay?pa="@ + url_encode_spec(encode_utf8(vpa)) + "&pn="@ + url_encode_spec(
        encode_utf8(payee),
    );
    let with_am = if amount.len() == 0 {
        base
    } else {
        base + "&am="@ + url_encode_spec(encode_utf8(amount))
    };
    let with_cu = with_am + "&cu=INR"@;
    if note.len() == 0 {
        with_cu
    } else {
        with_cu + "&tn="@ + url_encode_spec(encode_utf8(note))
    }
}

/// `s` with `suf` removed from its end as many times as it occurs there.
pub open spec fn strip_suffix_all(s: Seq<char>, suf: Seq<char>) -> Seq<char>
    decreases s.len(),
{
    if suf.len() > 0 && s.len() >= suf.len() && s.subrange(s.len() - suf.len(), s.len() as int)
        == suf {
        strip_suffix_all(s.subrange(0, s.len() - suf.len()), suf)
    } else {
        s
    }
}

/// `Rs <amount>` without a trailing `.00` / `.0`; `any amount` for an empty amount.
pub open spec fn amount_label_spec(amount: Seq<char>) -> Seq<char> {
    if amount.len() == 0 {
        "any amount"@
    } else {
        "Rs "@ + strip_suffix_all(strip_suffix_all(amount, seq!['.', '0', '0']), seq!['.', '0'])
    }
}

fn hex_digit(d: u8) -> (c: char)
    requires
        d < 16,
    ensures
        c == hex_upper(d as int),
{
    if d < 10 {
        (d + 48) as char
    } else {
        (d + 55) as char
    }
}

/// Minimal percent-encoding for UPI query values.
fn url_encode(s: &str) -> (out: String)
    ensures
        out@ == url_encode_spec(encode_utf8(s@)),
{
    let bytes = s.as_bytes();
    let mut out = String::new();
    for i in 0..bytes.len()
        invariant
            bytes@ == encode_utf8(s@),
            out@ == url_encode_spec(bytes@.take(i as int)),
    {
        let b = bytes[i];
        assert(bytes@.take(i + 1).drop_last() =~= bytes@.take(i as int));
        if (65 <= b && b <= 90) || (97 <= b && b <= 122) || (48 <= b && b <= 57) || b == 45 || b
            == 95 || b == 46 || b == 126 || b == 64 {
            push_char(&mut out, b as char);
        } else if b == 32 {
            push_char(&mut out, '%');
            push_char(&mut out, '2');
            push_char(&mut out, '0');
        } else {
            push_char(&mut out, '%');
            push_char(&mut out, hex_digit(b / 16));
            push_char(&mut out, hex_digit(b % 16));
        }
        assert(out@ =~= url_encode_spec(bytes@.take(i + 1)));
    }
    assert(bytes@.take(bytes@.len() as int) =~= bytes@);
    out
}

/// Build a UPI payment URI (NPCI intent format).
///
/// Example: `upi://pay?pa=merchant@upi&pn=Akash%20Soni&am=100.00&cu=INR&tn=Order`
pub fn build_upi_uri(vpa: &str, payee_name: &str, amount_inr: &str, note: &str) -> (q: String)
    ensures
        q@ == upi_uri_spec(vpa@, payee_name@, amount_inr@, note@),
{
    let mut q = String::new();
    push_str(&mut q, "upi://pay?pa=");
    push_str(&mut q, url_encode(vpa).as_str());
    push_str(&mut q, "&pn=");
    push_str(&mut q, url_encode(payee_name).as_str());
    let ghost base = q@;
    assert(base =~= "upi://pay?pa="@ + url_encode_spec(encode_utf8(vpa@)) + "&pn="@
        + url_encode_spec(encode_utf8(payee_name@)));
    if !amount_inr.is_empty() {
        push_str(&mut q, "&am=");
        push_str(&mut q, url_encode(amount_inr).as_str());
    }
    push_str(&mut q, "&cu=INR");
    let ghost mid = q@;
    if !note.is_empty() {
        push_str(&mut q, "&tn=");
        push_str(&mut q, url_encode(note).as_str());
    }
    assert(q@ =~= upi_uri_spec(vpa@, payee_name@, amount_inr@, note@));
    q
}

/// New end index after repeatedly dropping `suf` from `v[..hi]`.
fn strip_suffix_end(v: &[char], hi: usize, suf: &[char]) -> (r: usize)
    requires
        hi <= v@.len(),
        suf@.len() > 0,
    ensures
        r <= hi,
        v@.subrange(0, r as int) == strip_suffix_all(v@.subrange(0, hi as int), suf@),
{
    let mut end = hi;
    while end >= suf.len() && ends_with_at(v, end, suf)
        invariant
            end <= hi <= v@.len(),
            suf@.len() > 0,
            strip_suffix_all(v@.subrange(0, hi as int), suf@) == strip_suffix_all(
                v@.subrange(0, end as int),
                suf@,
            ),
        decreases end,
    {
        let ghost cur = v@.subrange(0, end as int);
        assert(cur.subrange(cur.len() - suf@.len(), cur.len() as int) =~= v@.subrange(
            end - suf@.len(),
            end as int,
        ));
        assert(cur.subrange(0, cur.len() - suf@.len()) =~= v@.subrange(0, end - suf@.len()));
        end -= suf.len();
    }
    proof {
        let cur = v@.subrange(0, end as int);
        if end >= suf@.len() {
            assert(cur.subrange(cur.len() - suf@.len(), cur.len() as int) =~= v@.subrange(
                end - suf@.len(),
                end as int,
            ));
        }
    }
    end
}

/// `v[end - suf.len() .. end] == suf`.
fn ends_with_at(v: &[char], end: usize, suf: &[char]) -> (r: bool)
    requires
        suf@.len() <= end <= v@.len(),
    ensures
        r == (v@.subrange(end - suf@.len(), end as int) == suf@),
{
    let start = end - suf.len();
    let mut k: usize = 0;
    while k < suf.len()
        invariant
            start + suf@.len() == end <= v@.len(),
            k <= suf@.len(),
            forall|j: int| 0 <= j < k ==> v@[start + j] == suf@[j],
        decreases suf@.len() - k,
    {
        if v[start + k] != suf[k] {
            assert(v@.subrange(start as int, end as int)[k as int] != suf@[k as int]);
            return false;
        }
        k += 1;
    }
    assert(v@.subrange(start as int, end as int) =~= suf@);
    true
}

/// Format paise/rupees display: `"100.00"` → `"Rs 100"` for e-Ink (no rupee glyph in 5×7 font).
pub fn format_amount_label(amount_inr: &str) -> (label: String)
    ensures
        label@ == amount_label_spec(amount_inr@),
{
    if amount_inr.is_empty() {
        return owned_lit_any_amount();
    }
    let v = chars_of(amount_inr);
    let s1 = ['.', '0', '0'];
    let s2 = ['.', '0'];
    assert(s1@ =~= seq!['.', '0', '0']);
    assert(s2@ =~= seq!['.', '0']);
    let e1 = strip_suffix_end(&v, v.len(), &s1);
    assert(v@.subrange(0, v@.len() as int) =~= v@);
    let e2 = strip_suffix_end(&v, e1, &s2);
    let mut clean: Vec<char> = Vec::new();
    let mut i: usize = 0;
    while i < e2
        invariant
            i <= e2 <= v@.len(),
            clean@ == v@.subrange(0, i as int),
        decreases e2 - i,
    {
        clean.push(v[i]);
        i += 1;
        assert(clean@ =~= v@.subrange(0, i as int));
    }
    let mut out = String::new();
    push_str(&mut out, "Rs ");
    push_str(&mut out, string_from_chars(&clean).as_str());
    assert(out@ =~= amount_label_spec(amount_inr@));
    out
}

fn owned_lit_any_amount() -> (s: String)
    ensures
        s@ == "any amount"@,
{
    let mut s = String::new();
    push_str(&mut s, "any amount");
    assert(s@ =~= "any amount"@);
    s
}

} // verus!
