//! Character-level text helpers shared by the formatting and parsing code.
//!
//! Strings are modelled by their character sequences (`s@`); byte lengths are the
//! UTF-8 lengths of those sequences.
use vstd::prelude::*;
use vstd::utf8::{encode_scalar, encode_utf8};

verus! {

/// ASCII digit for `d` (`0 <= d < 10`).
pub open spec fn digit_char(d: int) -> char {
    ((d + 48) as u8) as char
}

/// Decimal digits of a natural number, most significant first, no padding.
pub open spec fn dec_digits(n: nat) -> Seq<char>
    decreases n,
{
    if n < 10 {
        seq![digit_char(n as int)]
    } else {
        dec_digits(n / 10).push(digit_char((n % 10) as int))
    }
}

/// `n` copies of `'0'`.
pub open spec fn zeros(n: int) -> Seq<char> {
    Seq::new(if n > 0 { n as nat } else { 0 }, |_i: int| '0')
}

/// `format!("{:0width$}", n)`: sign, then zero padding up to `width` characters in all.
pub open spec fn fmt_int(n: int, width: nat) -> Seq<char> {
    if n < 0 {
        let d = dec_digits((-n) as nat);
        seq!['-'] + zeros(width - 1 - d.len()) + d
    } else {
        let d = dec_digits(n as nat);
        zeros(width - d.len()) + d
    }
}

/// Truncating division, as Rust's `/` on integers.
pub open spec fn tdiv(a: int, b: int) -> int {
    if a >= 0 {
        a / b
    } else {
        -((-a) / b)
    }
}

/// Number of UTF-8 bytes that encode `s`.
pub open spec fn utf8_len(s: Seq<char>) -> nat {
    encode_utf8(s).len()
}

/// Unicode `White_Space`, as `char::is_whitespace` and `str::trim` use it.
pub open spec fn is_ws(c: char) -> bool {
    c == '\t' || c == '\n' || c == '\u{B}' || c == '\u{C}' || c == '\r' || c == ' ' || c
        == '\u{85}' || c == '\u{A0}' || c == '\u{1680}' || ('\u{2000}' <= c && c <= '\u{200A}')
        || c == '\u{2028}' || c == '\u{2029}' || c == '\u{202F}' || c == '\u{205F}' || c
        == '\u{3000}'
}

/// `s` with leading white space removed.
pub open spec fn trim_start(s: Seq<char>) -> Seq<char>
    decreases s.len(),
{
    if s.len() > 0 && is_ws(s[0]) {
        trim_start(s.drop_first())
    } else {
        s
    }
}

/// `s` with trailing white space removed.
pub open spec fn trim_end(s: Seq<char>) -> Seq<char>
    decreases s.len(),
{
    if s.len() > 0 && is_ws(s.last()) {
        trim_end(s.drop_last())
    } else {
        s
    }
}

/// `str::trim`.
pub open spec fn trim(s: Seq<char>) -> Seq<char> {
    trim_end(trim_start(s))
}

pub open spec fn is_ascii_digit(c: char) -> bool {
    '0' <= c && c <= '9'
}

/// Value of an all-digit sequence (empty is 0).
pub open spec fn digits_value(s: Seq<char>) -> nat
    decreases s.len(),
{
    if s.len() == 0 {
        0
    } else {
        digits_value(s.drop_last()) * 10 + ((s.last() as u32) - 48) as nat
    }
}

pub open spec fn all_digits(s: Seq<char>) -> bool {
    forall|i: int| 0 <= i < s.len() ==> is_ascii_digit(#[trigger] s[i])
}

/// Integer `FromStr` on unbounded integers: optional sign, then one or more digits.
pub open spec fn parse_int(s: Seq<char>) -> Option<int> {
    if s.len() == 0 {
        None
    } else if s[0] == '-' || s[0] == '+' {
        let rest = s.drop_first();
        if rest.len() > 0 && all_digits(rest) {
            if s[0] == '-' {
                Some(-(digits_value(rest) as int))
            } else {
                Some(digits_value(rest) as int)
            }
        } else {
            None
        }
    } else if all_digits(s) {
        Some(digits_value(s) as int)
    } else {
        None
    }
}

/// `i64::from_str`.
pub open spec fn parse_i64_spec(s: Seq<char>) -> Option<i64> {
    match parse_int(s) {
        Some(v) => if i64::MIN <= v <= i64::MAX {
            Some(v as i64)
        } else {
            None
        },
        None => None,
    }
}

/// `i32::from_str`.
pub open spec fn parse_i32_spec(s: Seq<char>) -> Option<i32> {
    match parse_int(s) {
        Some(v) => if i32::MIN <= v <= i32::MAX {
            Some(v as i32)
        } else {
            None
        },
        None => None,
    }
}

/// ASCII lower-casing of one character (others unchanged).
pub open spec fn ascii_lower(c: char) -> char {
    if 'A' <= c && c <= 'Z' {
        ((c as u32 + 32) as u8) as char
    } else {
        c
    }
}

/// ASCII upper-casing of one character (others unchanged).
pub open spec fn ascii_upper(c: char) -> char {
    if 'a' <= c && c <= 'z' {
        ((c as u32 - 32) as u8) as char
    } else {
        c
    }
}

/// `str::eq_ignore_ascii_case`.
pub open spec fn eq_ignore_case(a: Seq<char>, b: Seq<char>) -> bool {
    a.len() == b.len() && forall|i: int| 0 <= i < a.len() ==> ascii_lower(#[trigger] a[i]) == ascii_lower(b[i])
}

/// `s` with every `from` replaced by `to`.
pub open spec fn replace_char(s: Seq<char>, from: char, to: char) -> Seq<char> {
    s.map_values(|c: char| if c == from { to } else { c })
}

/// UTF-8 length of a concatenation is the sum of the lengths.
pub proof fn lemma_utf8_len_concat(a: Seq<char>, b: Seq<char>)
    ensures
        encode_utf8(a + b) == encode_utf8(a) + encode_utf8(b),
        utf8_len(a + b) == utf8_len(a) + utf8_len(b),
    decreases a.len(),
{
    if a.len() == 0 {
        assert(a + b =~= b);
        assert(encode_utf8(a) =~= Seq::<u8>::empty());
        assert(encode_utf8(a) + encode_utf8(b) =~= encode_utf8(b));
    } else {
        lemma_utf8_len_concat(a.drop_first(), b);
        assert((a + b).drop_first() =~= a.drop_first() + b);
        assert((a + b)[0] == a[0]);
        assert(encode_utf8(a + b) =~= encode_utf8(a) + encode_utf8(b));
    }
}

/// Characters of a string slice.
pub fn chars_of(s: &str) -> (v: Vec<char>)
    ensures
        v@ == s@,
{
    let mut v: Vec<char> = Vec::new();
    for c in it: s.chars()
        invariant
            v@ == it.seq().take(it.index() as int),
    {
        v.push(c);
    }
    v
}

/// Appends one character (`String::push`).
#[verifier::external_body]
pub fn push_char(s: &mut String, c: char)
    ensures
        final(s)@ == old(s)@.push(c),
{
    s.push(c);
}

/// Appends a string slice.
pub fn push_str(s: &mut String, t: &str)
    ensures
        final(s)@ == old(s)@ + t@,
{
    s.append(t);
}

/// A string holding exactly `v`.
pub fn string_from_chars(v: &[char]) -> (s: String)
    ensures
        s@ == v@,
{
    let mut s = String::new();
    for i in 0..v.len()
        invariant
            s@ == v@.take(i as int),
    {
        push_char(&mut s, v[i]);
        assert(v@.take(i as int).push(v@[i as int]) =~= v@.take(i + 1));
    }
    assert(v@.take(v@.len() as int) =~= v@);
    s
}

/// An owned copy of `t`.
pub fn owned(t: &str) -> (s: String)
    ensures
        s@ == t@,
{
    let mut s = String::new();
    push_str(&mut s, t);
    assert(Seq::<char>::empty() + t@ =~= t@);
    s
}

/// Character-wise equality of two slices.
pub fn str_eq(a: &str, b: &str) -> (r: bool)
    ensures
        r == (a@ == b@),
{
    let x = chars_of(a);
    let y = chars_of(b);
    chars_eq(&x, &y)
}

/// Element-wise equality of two character slices.
pub fn chars_eq(x: &[char], y: &[char]) -> (r: bool)
    ensures
        r == (x@ == y@),
{
    if x.len() != y.len() {
        return false;
    }
    let mut i: usize = 0;
    while i < x.len()
        invariant
            x@.len() == y@.len(),
            0 <= i <= x@.len(),
            forall|k: int| 0 <= k < i ==> x@[k] == y@[k],
        decreases x@.len() - i,
    {
        if x[i] != y[i] {
            return false;
        }
        i += 1;
    }
    assert(x@ =~= y@);
    true
}

/// Appends the decimal digits of `n`.
pub fn push_dec(s: &mut String, n: u64)
    ensures
        final(s)@ == old(s)@ + dec_digits(n as nat),
    decreases n,
{
    if n >= 10 {
        push_dec(s, n / 10);
    }
    let d: u8 = (n % 10) as u8;
    push_char(s, (d + 48) as char);
    assert(old(s)@ + dec_digits(n as nat) =~= (if n >= 10 {
        old(s)@ + dec_digits((n / 10) as nat)
    } else {
        old(s)@
    }).push(digit_char((n % 10) as int)));
}

/// `10^n`.
pub open spec fn pow10(n: nat) -> nat
    decreases n,
{
    if n == 0 {
        1
    } else {
        10 * pow10((n - 1) as nat)
    }
}

/// A number below `10^k` has at most `k` decimal digits.
pub proof fn lemma_dec_digits_le(n: nat, k: nat)
    requires
        k >= 1,
        n < pow10(k),
    ensures
        dec_digits(n).len() <= k,
    decreases k,
{
    if n >= 10 {
        if k == 1 {
            assert(pow10(1) == 10) by {
                reveal_with_fuel(pow10, 2);
            }
        } else {
            lemma_dec_digits_le(n / 10, (k - 1) as nat);
        }
    }
}

/// A `u64` has at most 20 decimal digits.
pub proof fn lemma_dec_digits_u64(n: u64)
    ensures
        dec_digits(n as nat).len() <= 20,
{
    assert(pow10(20) == 100_000_000_000_000_000_000nat) by {
        reveal_with_fuel(pow10, 21);
    }
    lemma_dec_digits_le(n as nat, 20);
}

/// A formatted integer of magnitude below 2^64 takes at most `21 + width` characters.
pub proof fn lemma_fmt_int_len(n: int, width: nat)
    requires
        -18_446_744_073_709_551_615 <= n <= 18_446_744_073_709_551_615,
    ensures
        fmt_int(n, width).len() <= 21 + width,
{
    if n < 0 {
        lemma_dec_digits_u64((-n) as u64);
    } else {
        lemma_dec_digits_u64(n as u64);
    }
}

pub proof fn lemma_dec_digits_len(n: nat)
    ensures
        n < 10 ==> dec_digits(n).len() == 1,
        10 <= n < 100 ==> dec_digits(n).len() == 2,
        100 <= n < 1000 ==> dec_digits(n).len() == 3,
        dec_digits(n).len() >= 1,
    decreases n,
{
    if n >= 10 {
        lemma_dec_digits_len(n / 10);
    }
}

/// Appends `n` formatted as `{:0width$}`.
pub fn push_int_padded(s: &mut String, n: i64, width: usize)
    ensures
        final(s)@ == old(s)@ + fmt_int(n as int, width as nat),
{
    let ghost start = s@;
    let neg = n < 0;
    let mag: u64 = if neg { ((-(n + 1)) as u64) + 1 } else { n as u64 };
    let mut digits = String::new();
    push_dec(&mut digits, mag);
    let dlen = chars_of(digits.as_str()).len();
    assert(dlen == dec_digits(mag as nat).len());
    let mut pad: usize = if neg {
        if width > 0 && width - 1 > dlen { width - 1 - dlen } else { 0 }
    } else {
        if width > dlen { width - dlen } else { 0 }
    };
    if neg {
        push_char(s, '-');
    }
    let ghost head = s@;
    let mut k: usize = 0;
    while k < pad
        invariant
            s@ == head + zeros(k as int),
            k <= pad,
        decreases pad - k,
    {
        push_char(s, '0');
        k += 1;
        assert(head + zeros(k as int) =~= (head + zeros((k - 1) as int)).push('0'));
    }
    push_str(s, digits.as_str());
    proof {
        if neg {
            assert(fmt_int(n as int, width as nat) =~= seq!['-'] + zeros(pad as int) + dec_digits(mag as nat));
            assert(s@ =~= start + fmt_int(n as int, width as nat));
        } else {
            assert(fmt_int(n as int, width as nat) =~= zeros(pad as int) + dec_digits(mag as nat));
            assert(s@ =~= start + fmt_int(n as int, width as nat));
        }
    }
}

/// Appends the plain decimal form of `n` (`{}`).
pub fn push_int(s: &mut String, n: i64)
    ensures
        final(s)@ == old(s)@ + fmt_int(n as int, 0),
{
    push_int_padded(s, n, 0);
}

/// `true` for `char::is_whitespace`.
pub fn char_is_ws(c: char) -> (r: bool)
    ensures
        r == is_ws(c),
{
    c == '\t' || c == '\n' || c == '\u{B}' || c == '\u{C}' || c == '\r' || c == ' ' || c
        == '\u{85}' || c == '\u{A0}' || c == '\u{1680}' || ('\u{2000}' <= c && c <= '\u{200A}')
        || c == '\u{2028}' || c == '\u{2029}' || c == '\u{202F}' || c == '\u{205F}' || c
        == '\u{3000}'
}

/// Index range `[lo, hi)` that `str::trim` keeps.
pub fn trim_bounds(v: &[char]) -> (r: (usize, usize))
    ensures
        r.0 <= r.1 <= v@.len(),
        v@.subrange(r.0 as int, r.1 as int) == trim(v@),
{
    let mut lo: usize = 0;
    assert(v@.subrange(0, v@.len() as int) =~= v@);
    while lo < v.len() && char_is_ws(v[lo])
        invariant
            lo <= v@.len(),
            trim_start(v@) == trim_start(v@.subrange(lo as int, v@.len() as int)),
        decreases v@.len() - lo,
    {
        assert(v@.subrange(lo as int, v@.len() as int).drop_first() =~= v@.subrange(lo + 1, v@.len() as int));
        lo += 1;
    }
    let ghost mid = v@.subrange(lo as int, v@.len() as int);
    assert(trim_start(mid) == mid);
    let mut hi: usize = v.len();
    while hi > lo && char_is_ws(v[hi - 1])
        invariant
            lo <= hi <= v@.len(),
            trim_end(mid) == trim_end(v@.subrange(lo as int, hi as int)),
        decreases hi,
    {
        assert(v@.subrange(lo as int, hi as int).drop_last() =~= v@.subrange(lo as int, hi - 1));
        hi -= 1;
    }
    (lo, hi)
}

/// `str::trim`, as characters.
pub fn trim_chars(v: &[char]) -> (r: Vec<char>)
    ensures
        r@ == trim(v@),
{
    let (lo, hi) = trim_bounds(v);
    let mut out: Vec<char> = Vec::new();
    let mut i = lo;
    while i < hi
        invariant
            lo <= i <= hi <= v@.len(),
            out@ == v@.subrange(lo as int, i as int),
        decreases hi - i,
    {
        out.push(v[i]);
        i += 1;
        assert(out@ =~= v@.subrange(lo as int, i as int));
    }
    out
}

/// `str::trim` on a slice, as an owned string.
pub fn trim_str(s: &str) -> (r: String)
    ensures
        r@ == trim(s@),
{
    let v = chars_of(s);
    let t = trim_chars(&v);
    string_from_chars(&t)
}

proof fn lemma_digits_value_push(s: Seq<char>, c: char)
    ensures
        digits_value(s.push(c)) == digits_value(s) * 10 + ((c as u32) - 48) as nat,
{
    assert(s.push(c).drop_last() =~= s);
}

/// The decimal digits of `n` are digits, at least one, and read back as `n`.
pub proof fn lemma_dec_digits_value(n: nat)
    ensures
        all_digits(dec_digits(n)),
        digits_value(dec_digits(n)) == n,
        dec_digits(n).len() >= 1,
    decreases n,
{
    if n >= 10 {
        lemma_dec_digits_value(n / 10);
        let d = dec_digits(n / 10);
        let c = digit_char((n % 10) as int);
        lemma_digits_value_push(d, c);
        lemma_digit_char_value((n % 10) as int);
        assert(n == (n / 10) * 10 + n % 10);
        assert(dec_digits(n) == d.push(c));
        assert(digits_value(d) == n / 10);
        assert(((c as u32) - 48) as nat == n % 10);
        assert(digits_value(d.push(c)) == n);
        assert forall|i: int| 0 <= i < d.push(c).len() implies is_ascii_digit(#[trigger] d.push(c)[i]) by {
            if i < d.len() {
                assert(d.push(c)[i] == d[i]);
            }
        }
    } else {
        let d = dec_digits(n);
        lemma_digit_char_value(n as int);
        assert(d == seq![digit_char(n as int)]);
        assert(d.drop_last().len() == 0);
        assert(digits_value(d.drop_last()) == 0);
        assert(digits_value(d) == n);
    }
}

/// A digit's character has code `48 + d`.
proof fn lemma_digit_char_value(d: int)
    requires
        0 <= d < 10,
    ensures
        digit_char(d) as u32 == d + 48,
        is_ascii_digit(digit_char(d)),
{
    let b = (d + 48) as u8;
    assert(b == d + 48);
}

/// `k` zeros read as nothing.
proof fn lemma_zeros_value_alone(k: int)
    ensures
        digits_value(zeros(k)) == 0,
        all_digits(zeros(k)),
    decreases k,
{
    if k > 0 {
        assert(zeros(k).drop_last() =~= zeros(k - 1));
        lemma_zeros_value_alone(k - 1);
    } else {
        assert(zeros(k).len() == 0);
    }
}

/// Leading zeros add nothing to a digit string's value.
pub proof fn lemma_zeros_value(k: int, s: Seq<char>)
    ensures
        digits_value(zeros(k) + s) == digits_value(s),
        all_digits(s) ==> all_digits(zeros(k) + s),
    decreases s.len(),
{
    lemma_zeros_value_alone(k);
    if s.len() == 0 {
        assert(zeros(k) + s =~= zeros(k));
    } else {
        lemma_zeros_value(k, s.drop_last());
        assert((zeros(k) + s).drop_last() =~= zeros(k) + s.drop_last());
        assert((zeros(k) + s).last() == s.last());
    }
    if all_digits(s) {
        assert forall|i: int| 0 <= i < (zeros(k) + s).len() implies is_ascii_digit(#[trigger] (zeros(k) + s)[i]) by {
            if i >= zeros(k).len() {
                assert((zeros(k) + s)[i] == s[i - zeros(k).len()]);
            }
        }
    }
}

/// A non-negative number formatted with any zero padding is all digits, at
/// least one, and parses back as itself.
pub proof fn lemma_fmt_int_parses(n: nat, width: nat)
    ensures
        all_digits(fmt_int(n as int, width)),
        fmt_int(n as int, width).len() >= 1,
        digits_value(fmt_int(n as int, width)) == n,
        parse_int(fmt_int(n as int, width)) == Some(n as int),
{
    lemma_dec_digits_value(n);
    let d = dec_digits(n);
    lemma_zeros_value(width - d.len(), d);
    let f = fmt_int(n as int, width);
    assert(f == zeros(width - d.len()) + d);
    assert(is_ascii_digit(f[0]));
}

proof fn lemma_digits_value_mono(s: Seq<char>, n: int)
    requires
        0 <= n <= s.len(),
        all_digits(s),
    ensures
        digits_value(s.take(n)) <= digits_value(s),
    decreases s.len() - n,
{
    if n < s.len() {
        lemma_digits_value_mono(s, n + 1);
        assert(s.take(n + 1) =~= s.take(n).push(s[n]));
        lemma_digits_value_push(s.take(n), s[n]);
        assert(is_ascii_digit(s[n]));
    } else {
        assert(s.take(n) =~= s);
    }
}

/// Value of `v[from..]` when it is non-empty, all digits and at most `limit`.
fn digits_upto(v: &[char], from: usize, limit: u64) -> (r: Option<u64>)
    requires
        from <= v@.len(),
        limit >= 9,
    ensures
        ({
            let rest = v@.subrange(from as int, v@.len() as int);
            match r {
                Some(x) => rest.len() > 0 && all_digits(rest) && x == digits_value(rest) && x
                    <= limit,
                None => rest.len() == 0 || !all_digits(rest) || digits_value(rest) > limit,
            }
        }),
{
    let ghost rest = v@.subrange(from as int, v@.len() as int);
    if from == v.len() {
        return None;
    }
    let mut acc: u64 = 0;
    let mut i = from;
    while i < v.len()
        invariant
            from <= i <= v@.len(),
            rest == v@.subrange(from as int, v@.len() as int),
            all_digits(rest.take(i - from)),
            acc == digits_value(rest.take(i - from)),
            acc <= limit,
            limit >= 9,
        decreases v@.len() - i,
    {
        let c = v[i];
        if !('0' <= c && c <= '9') {
            assert(rest[i - from] == c);
            return None;
        }
        let d: u64 = ((c as u32) - 48) as u64;
        assert(rest.take(i - from + 1) =~= rest.take(i - from).push(c));
        proof {
            lemma_digits_value_push(rest.take(i - from), c);
        }
        if acc > (limit - d) / 10 {
            proof {
                assert(all_digits(rest.take(i - from + 1)));
                assert(digits_value(rest.take(i - from + 1)) > limit) by (nonlinear_arith)
                    requires
                        acc > (limit - d) / 10,
                        digits_value(rest.take(i - from + 1)) == acc * 10 + d,
                        d <= 9,
                        d <= limit || true,
                {
                }
                if all_digits(rest) {
                    lemma_digits_value_mono(rest, i - from + 1);
                }
            }
            return None;
        }
        acc = acc * 10 + d;
        i += 1;
    }
    assert(rest.take(i - from) =~= rest);
    Some(acc)
}

/// `i64::from_str` on characters.
pub fn parse_i64(v: &[char]) -> (r: Option<i64>)
    ensures
        r == parse_i64_spec(v@),
{
    if v.len() == 0 {
        return None;
    }
    if v[0] == '-' || v[0] == '+' {
        let neg = v[0] == '-';
        let limit: u64 = if neg { 9_223_372_036_854_775_808 } else { 9_223_372_036_854_775_807 };
        assert(v@.drop_first() =~= v@.subrange(1, v@.len() as int));
        match digits_upto(v, 1, limit) {
            Some(x) => {
                if neg {
                    if x == 9_223_372_036_854_775_808 {
                        Some(i64::MIN)
                    } else {
                        Some(-(x as i64))
                    }
                } else {
                    Some(x as i64)
                }
            },
            None => None,
        }
    } else {
        assert(v@ =~= v@.subrange(0, v@.len() as int));
        match digits_upto(v, 0, 9_223_372_036_854_775_807) {
            Some(x) => Some(x as i64),
            None => None,
        }
    }
}

/// `i32::from_str` on characters.
pub fn parse_i32(v: &[char]) -> (r: Option<i32>)
    ensures
        r == parse_i32_spec(v@),
{
    match parse_i64(v) {
        Some(x) => {
            if -2147483648 <= x && x <= 2147483647 {
                Some(x as i32)
            } else {
                None
            }
        },
        None => None,
    }
}

/// ASCII lower-casing of one character.
pub fn to_ascii_lower(c: char) -> (r: char)
    ensures
        r == ascii_lower(c),
{
    if 'A' <= c && c <= 'Z' {
        ((c as u8) + 32) as char
    } else {
        c
    }
}

/// ASCII upper-casing of one character.
pub fn to_ascii_upper(c: char) -> (r: char)
    ensures
        r == ascii_upper(c),
{
    if 'a' <= c && c <= 'z' {
        ((c as u8) - 32) as char
    } else {
        c
    }
}

/// `str::eq_ignore_ascii_case` on characters.
pub fn chars_eq_ignore_case(a: &[char], b: &[char]) -> (r: bool)
    ensures
        r == eq_ignore_case(a@, b@),
{
    if a.len() != b.len() {
        return false;
    }
    let mut i: usize = 0;
    while i < a.len()
        invariant
            a@.len() == b@.len(),
            i <= a@.len(),
            forall|k: int| 0 <= k < i ==> ascii_lower(#[trigger] a@[k]) == ascii_lower(b@[k]),
        decreases a@.len() - i,
    {
        if to_ascii_lower(a[i]) != to_ascii_lower(b[i]) {
            return false;
        }
        i += 1;
    }
    true
}

/// `str::eq_ignore_ascii_case`.
pub fn str_eq_ignore_case(a: &str, b: &str) -> (r: bool)
    ensures
        r == eq_ignore_case(a@, b@),
{
    let x = chars_of(a);
    let y = chars_of(b);
    chars_eq_ignore_case(&x, &y)
}

/// `true` when `c` occurs in `v`.
pub fn chars_contain(v: &[char], c: char) -> (r: bool)
    ensures
        r == v@.contains(c),
{
    let mut i: usize = 0;
    while i < v.len()
        invariant
            i <= v@.len(),
            forall|k: int| 0 <= k < i ==> v@[k] != c,
        decreases v@.len() - i,
    {
        if v[i] == c {
            assert(v@[i as int] == c);
            return true;
        }
        i += 1;
    }
    false
}

/// UTF-8 byte length of a string (`str::len`).
pub fn byte_len(s: &str) -> (n: usize)
    ensures
        n == utf8_len(s@),
{
    s.as_bytes().len()
}


/// Bytes in the UTF-8 encoding of one character.
pub open spec fn char_width(c: char) -> nat {
    encode_scalar(c as u32).len()
}

pub proof fn lemma_utf8_len_push(s: Seq<char>, c: char)
    ensures
        utf8_len(s.push(c)) == utf8_len(s) + char_width(c),
{
    lemma_utf8_len_concat(s, seq![c]);
    assert(s.push(c) =~= s + seq![c]);
    assert(seq![c].drop_first() =~= Seq::<char>::empty());
    assert(encode_utf8(seq![c]) =~= encode_scalar(c as u32) + encode_utf8(Seq::<char>::empty()));
}

/// UTF-8 width of one character.
pub fn char_utf8_width(c: char) -> (w: usize)
    ensures
        w == char_width(c),
        1 <= w <= 4,
{
    proof {
        vstd::utf8::char_is_scalar(c);
    }
    let v = c as u32;
    if v <= 0x7F {
        1
    } else if v <= 0x7FF {
        2
    } else if v <= 0xFFFF {
        3
    } else {
        4
    }
}

proof fn lemma_prefix_len_strict(s: Seq<char>, a: int, b: int)
    requires
        0 <= a < b <= s.len(),
    ensures
        utf8_len(s.take(a)) < utf8_len(s.take(b)),
    decreases b - a,
{
    assert(s.take(b) =~= s.take(b - 1).push(s[b - 1]));
    lemma_utf8_len_push(s.take(b - 1), s[b - 1]);
    vstd::utf8::char_is_scalar(s[b - 1]);
    if a < b - 1 {
        lemma_prefix_len_strict(s, a, b - 1);
    }
}

/// Some prefix of `s` is exactly `n` bytes long.
pub open spec fn has_byte_boundary(s: Seq<char>, n: nat) -> bool {
    exists|k: int| 0 <= k <= s.len() && #[trigger] utf8_len(s.take(k)) == n
}

/// `String::truncate(n)`: the prefix of exactly `n` bytes, or all of `s` when shorter.
pub open spec fn truncate_bytes(s: Seq<char>, n: nat) -> Seq<char> {
    if utf8_len(s) <= n {
        s
    } else {
        s.take(choose|k: int| 0 <= k <= s.len() && #[trigger] utf8_len(s.take(k)) == n)
    }
}

/// The longest prefix of `s` at most `n` bytes long: the characters that do
/// not fit are dropped from the end, so no character is split.
pub open spec fn truncate_floor(s: Seq<char>, n: nat) -> Seq<char>
    decreases s.len(),
{
    if utf8_len(s) <= n || s.len() == 0 {
        s
    } else {
        truncate_floor(s.drop_last(), n)
    }
}

proof fn lemma_truncate_floor_at(s: Seq<char>, n: nat, i: int)
    requires
        0 <= i <= s.len(),
        utf8_len(s.take(i)) <= n,
        i == s.len() || utf8_len(s.take(i + 1)) > n,
    ensures
        truncate_floor(s, n) == s.take(i),
    decreases s.len(),
{
    assert(s.take(s.len() as int) =~= s);
    if utf8_len(s) <= n {
        if i < s.len() {
            if i + 1 < s.len() {
                lemma_prefix_len_strict(s, i + 1, s.len() as int);
            }
            assert(false);
        }
    } else {
        assert(i < s.len());
        let d = s.drop_last();
        assert(d.take(i) =~= s.take(i));
        if i + 1 < s.len() {
            assert(d.take(i + 1) =~= s.take(i + 1));
        } else {
            assert(d.take(d.len() as int) =~= d);
        }
        lemma_truncate_floor_at(d, n, i);
    }
}

/// `truncate_floor` on characters.
pub fn truncate_floor_chars(v: &[char], n: usize) -> (r: Vec<char>)
    ensures
        r@ == truncate_floor(v@, n as nat),
{
    let mut out: Vec<char> = Vec::new();
    let mut used: usize = 0;
    let mut i: usize = 0;
    while i < v.len()
        invariant
            i <= v@.len(),
            out@ == v@.take(i as int),
            used == utf8_len(v@.take(i as int)),
            used <= n,
        ensures
            i <= v@.len(),
            out@ == v@.take(i as int),
            used == utf8_len(v@.take(i as int)),
            used <= n,
            i == v@.len() || used + char_width(v@[i as int]) > n,
        decreases v@.len() - i,
    {
        let w = char_utf8_width(v[i]);
        if w > n - used {
            break;
        }
        proof {
            assert(v@.take(i + 1) =~= v@.take(i as int).push(v@[i as int]));
            lemma_utf8_len_push(v@.take(i as int), v@[i as int]);
        }
        out.push(v[i]);
        used += w;
        i += 1;
    }
    proof {
        if i < v@.len() {
            assert(v@.take(i + 1) =~= v@.take(i as int).push(v@[i as int]));
            lemma_utf8_len_push(v@.take(i as int), v@[i as int]);
        }
        lemma_truncate_floor_at(v@, n as nat, i as int);
    }
    out
}

/// `String::truncate` on characters; the cut must fall between characters.
pub fn truncate_chars(v: &[char], n: usize) -> (r: Vec<char>)
    requires
        utf8_len(v@) > n ==> has_byte_boundary(v@, n as nat),
    ensures
        r@ == truncate_bytes(v@, n as nat),
{
    let mut out: Vec<char> = Vec::new();
    let mut used: usize = 0;
    let mut i: usize = 0;
    while i < v.len()
        invariant
            i <= v@.len(),
            out@ == v@.take(i as int),
            used == utf8_len(v@.take(i as int)),
            used <= n,
        ensures
            i <= v@.len(),
            out@ == v@.take(i as int),
            used == utf8_len(v@.take(i as int)),
            used <= n,
            i == v@.len() || used + char_width(v@[i as int]) > n,
        decreases v@.len() - i,
    {
        let w = char_utf8_width(v[i]);
        if w > n - used {
            break;
        }
        proof {
            assert(v@.take(i + 1) =~= v@.take(i as int).push(v@[i as int]));
            lemma_utf8_len_push(v@.take(i as int), v@[i as int]);
        }
        out.push(v[i]);
        used += w;
        i += 1;
    }
    proof {
        assert(v@.take(v@.len() as int) =~= v@);
        if utf8_len(v@) > n {
            let k = choose|k: int| 0 <= k <= v@.len() && #[trigger] utf8_len(v@.take(k)) == n;
            if i == v@.len() {
                assert(false);
            } else {
                assert(v@.take(i + 1) =~= v@.take(i as int).push(v@[i as int]));
                lemma_utf8_len_push(v@.take(i as int), v@[i as int]);
                if k < i {
                    lemma_prefix_len_strict(v@, k, i as int);
                } else if k > i {
                    if k > i + 1 {
                        lemma_prefix_len_strict(v@, i + 1, k);
                    }
                }
                assert(k == i);
            }
        } else {
            if i < v@.len() {
                assert(v@.take(i + 1) =~= v@.take(i as int).push(v@[i as int]));
                lemma_utf8_len_push(v@.take(i as int), v@[i as int]);
                if i + 1 < v@.len() {
                    lemma_prefix_len_strict(v@, i + 1, v@.len() as int);
                }
                assert(false);
            }
        }
    }
    out
}

/// Completed lines and the current unterminated piece after reading `s`.
pub open spec fn pieces_fold(s: Seq<char>) -> (Seq<Seq<char>>, Seq<char>)
    decreases s.len(),
{
    if s.len() == 0 {
        (seq![], seq![])
    } else {
        let (done, cur) = pieces_fold(s.drop_last());
        if s.last() == '\n' {
            (done.push(cur), seq![])
        } else {
            (done, cur.push(s.last()))
        }
    }
}

/// The lines of `s` as `str::lines` yields them, before the `\r` of a CRLF
/// ending is dropped (every consumer trims the lines).
pub open spec fn line_pieces(s: Seq<char>) -> Seq<Seq<char>> {
    let (done, cur) = pieces_fold(s);
    if cur.len() > 0 {
        done.push(cur)
    } else {
        done
    }
}

pub open spec fn vec_views(v: Seq<Vec<char>>) -> Seq<Seq<char>> {
    v.map_values(|x: Vec<char>| x@)
}

/// Lines of `s`: split at `\n`, no empty piece after a final newline.
pub fn lines_of(s: &str) -> (r: Vec<Vec<char>>)
    ensures
        vec_views(r@) == line_pieces(s@),
{
    let v = chars_of(s);
    let mut done: Vec<Vec<char>> = Vec::new();
    let mut cur: Vec<char> = Vec::new();
    let mut i: usize = 0;
    while i < v.len()
        invariant
            i <= v@.len(),
            (vec_views(done@), cur@) == pieces_fold(v@.take(i as int)),
        decreases v@.len() - i,
    {
        assert(v@.take(i + 1).drop_last() =~= v@.take(i as int));
        if v[i] == '\n' {
            let piece = cur;
            done.push(piece);
            cur = Vec::new();
            assert(vec_views(done@) =~= pieces_fold(v@.take(i + 1)).0);
        } else {
            cur.push(v[i]);
        }
        i += 1;
    }
    assert(v@.take(v@.len() as int) =~= v@);
    if cur.len() > 0 {
        done.push(cur);
        assert(vec_views(done@) =~= line_pieces(s@));
    }
    done
}

/// Position of the first `c` in `s`, if any.
#[verifier::opaque]
pub open spec fn first_index(s: Seq<char>, c: char) -> Option<int> {
    if s.contains(c) {
        Some(choose|i: int| 0 <= i < s.len() && s[i] == c && forall|j: int| 0 <= j < i ==> s[j] != c)
    } else {
        None
    }
}

/// Position of the first `c` in `v[from..]`.
pub fn find_char(v: &[char], from: usize, c: char) -> (r: Option<usize>)
    requires
        from <= v@.len(),
    ensures
        match r {
            Some(i) => from <= i < v@.len() && v@[i as int] == c && forall|j: int|
                from <= j < i ==> v@[j] != c,
            None => forall|j: int| from <= j < v@.len() ==> v@[j] != c,
        },
        r matches Some(i) ==> first_index(v@.subrange(from as int, v@.len() as int), c) == Some(
            i - from,
        ),
        r is None ==> first_index(v@.subrange(from as int, v@.len() as int), c) is None,
{
    reveal(first_index);
    let mut i = from;
    while i < v.len()
        invariant
            from <= i <= v@.len(),
            forall|j: int| from <= j < i ==> v@[j] != c,
        decreases v@.len() - i,
    {
        if v[i] == c {
            proof {
                reveal(first_index);
                let sub = v@.subrange(from as int, v@.len() as int);
                assert(sub[i - from] == c);
                let k = choose|k: int| 0 <= k < sub.len() && sub[k] == c && forall|j: int| 0 <= j < k ==> sub[j] != c;
                assert(k == i - from) by {
                    if k < i - from {
                        assert(v@[from + k] == c);
                    } else if k > i - from {
                    }
                }
            }
            return Some(i);
        }
        i += 1;
    }
    proof {
        let sub = v@.subrange(from as int, v@.len() as int);
        if sub.contains(c) {
            let k = choose|k: int| 0 <= k < sub.len() && sub[k] == c;
            assert(v@[from + k] == c);
        }
    }
    None
}

/// `v[lo..hi]` as a new vector.
pub fn slice_vec(v: &[char], lo: usize, hi: usize) -> (r: Vec<char>)
    requires
        lo <= hi <= v@.len(),
    ensures
        r@ == v@.subrange(lo as int, hi as int),
{
    let mut out: Vec<char> = Vec::new();
    let mut i = lo;
    while i < hi
        invariant
            lo <= i <= hi,
            hi <= v@.len(),
            out@ == v@.subrange(lo as int, i as int),
        decreases hi - i,
    {
        out.push(v[i]);
        i += 1;
        assert(out@ =~= v@.subrange(lo as int, i as int));
    }
    out
}


/// Longer prefixes never encode to fewer bytes.
pub proof fn lemma_prefix_len_mono(s: Seq<char>, a: int, b: int)
    requires
        0 <= a <= b <= s.len(),
    ensures
        utf8_len(s.take(a)) <= utf8_len(s.take(b)),
{
    if a < b {
        lemma_prefix_len_strict(s, a, b);
    }
}


/// Three newline-terminated lines without inner newlines read back as those lines.
pub proof fn lemma_lines_of_three(a: Seq<char>, b: Seq<char>, c: Seq<char>)
    requires
        !a.contains('\n'),
        !b.contains('\n'),
        !c.contains('\n'),
    ensures
        line_pieces(a + seq!['\n'] + b + seq!['\n'] + c + seq!['\n']) == seq![a, b, c],
{
    lemma_pieces_append_text(Seq::empty(), a);
    assert(Seq::<char>::empty() + a =~= a);
    let s1 = a + seq!['\n'];
    assert(s1.drop_last() =~= a);
    lemma_pieces_append_text(s1, b);
    let s2 = s1 + b + seq!['\n'];
    assert(s2.drop_last() =~= s1 + b);
    lemma_pieces_append_text(s2, c);
    let s3 = s2 + c + seq!['\n'];
    assert(s3.drop_last() =~= s2 + c);
    assert(pieces_fold(Seq::<char>::empty()).1 + a =~= a);
    assert(Seq::<char>::empty() + b =~= b);
    assert(Seq::<char>::empty() + c =~= c);
    assert(a + seq!['\n'] + b + seq!['\n'] + c + seq!['\n'] =~= s3);
    assert(seq![a].push(b).push(c) =~= seq![a, b, c]);
}

/// Appending newline-free text extends the current line.
pub proof fn lemma_pieces_append_text(s: Seq<char>, t: Seq<char>)
    requires
        !t.contains('\n'),
    ensures
        pieces_fold(s + t) == (pieces_fold(s).0, pieces_fold(s).1 + t),
    decreases t.len(),
{
    if t.len() == 0 {
        assert(s + t =~= s);
        assert(pieces_fold(s).1 + t =~= pieces_fold(s).1);
    } else {
        let t0 = t.drop_last();
        assert(!t0.contains('\n')) by {
            if t0.contains('\n') {
                let k = choose|k: int| 0 <= k < t0.len() && t0[k] == '\n';
                assert(t[k] == '\n');
            }
        }
        lemma_pieces_append_text(s, t0);
        assert((s + t).drop_last() =~= s + t0);
        assert(t.last() != '\n') by {
            assert(t[t.len() - 1] == t.last());
        }
        assert(pieces_fold(s).1 + t =~= (pieces_fold(s).1 + t0).push(t.last()));
    }
}

/// `t` is at most `n` bytes long or can be cut at byte `n` between characters.
pub fn cut_ok_exec_n(t: &[char], n_bytes: usize) -> (r: bool)
    ensures
        r == (utf8_len(t@) > n_bytes ==> has_byte_boundary(t@, n_bytes as nat)),
{
    let n = t.len();
    let mut used: usize = 0;
    let mut i: usize = 0;
    while i < n && used < n_bytes
        invariant
            n == t@.len(),
            i <= n,
            used == utf8_len(t@.take(i as int)),
            used <= n_bytes,
        decreases n - i,
    {
        let w = char_utf8_width(t[i]);
        proof {
            assert(t@.take(i + 1) =~= t@.take(i as int).push(t@[i as int]));
            lemma_utf8_len_push(t@.take(i as int), t@[i as int]);
        }
        if w > n_bytes - used {
            proof {
                assert(t@.take(t@.len() as int) =~= t@);
                lemma_prefix_len_mono(t@, i + 1, t@.len() as int);
                assert forall|k: int| 0 <= k <= t@.len() implies #[trigger] utf8_len(t@.take(k)) != n_bytes as nat by {
                    if k <= i {
                        lemma_prefix_len_mono(t@, k, i as int);
                    } else {
                        lemma_prefix_len_mono(t@, i + 1, k);
                    }
                }
            }
            assert(utf8_len(t@) > n_bytes);
            assert(!has_byte_boundary(t@, n_bytes as nat));
            return false;
        }
        used += w;
        i += 1;
    }
    proof {
        if used == n_bytes {
            assert(has_byte_boundary(t@, n_bytes as nat));
        } else {
            assert(t@.take(t@.len() as int) =~= t@);
        }
    }
    true
}

} // verus!
