//! Payment domain models for Zoop Pay (UPI collect).
use vstd::prelude::*;

use crate::text::{
    chars_of, fmt_int, lemma_fmt_int_len, owned, parse_i64, parse_i64_spec, parse_int, digits_value, all_digits, push_char, push_int, push_int_padded,
    push_str, string_from_chars, trim, trim_chars, trim_start, trim_end, is_ws, is_ascii_digit, lemma_fmt_int_parses,
    lemma_dec_digits_len, dec_digits,
};
use crate::upi::{amount_label_spec, build_upi_uri, format_amount_label, strip_suffix_all, upi_uri_spec};

verus! {

/// Merchant identity shown on home / merchant screen and encoded in QR.
#[derive(Debug, Clone, PartialEq, Eq)]
pub struct MerchantProfile {
    pub name: String,
    pub vpa: String,
}

impl Default for MerchantProfile {
    fn default() -> (m: Self)
        ensures
            m.name@ == "Akash Soni"@,
            m.vpa@ == "akash@oksbi"@,
    {
        Self { name: owned("Akash Soni"), vpa: owned("akash@oksbi") }
    }
}

/// Default preset amounts (INR) for the price-pick screens.
pub const DEFAULT_PRICE_INR: [&'static str; 6] = [
    "50.00",
    "100.00",
    "200.00",
    "500.00",
    "1000.00",
    "2000.00",
];

/// Catalog of fixed collect amounts the merchant can offer.
#[derive(Debug, Clone, PartialEq, Eq)]
pub struct PriceCatalog {
    /// Amount strings like `"100.00"`.
    pub amounts: Vec<String>,
}

impl Default for PriceCatalog {
    fn default() -> (c: Self)
        ensures
            c.amounts@.len() == 6,
            forall|i: int| 0 <= i < 6 ==> #[trigger] c.amounts@[i]@ == DEFAULT_PRICE_INR[i]@,
    {
        Self::from_defaults()
    }
}

impl PriceCatalog {
    pub fn from_defaults() -> (c: Self)
        ensures
            c.amounts@.len() == 6,
            forall|i: int| 0 <= i < 6 ==> #[trigger] c.amounts@[i]@ == DEFAULT_PRICE_INR[i]@,
    {
        let mut amounts: Vec<String> = Vec::new();
        for i in 0..6usize
            invariant
                amounts@.len() == i,
                forall|k: int| 0 <= k < i ==> #[trigger] amounts@[k]@ == DEFAULT_PRICE_INR[k]@,
        {
            amounts.push(owned(DEFAULT_PRICE_INR[i]));
        }
        Self { amounts }
    }

    pub fn len(&self) -> (n: usize)
        ensures
            n == self.amounts@.len(),
    {
        self.amounts.len()
    }

    pub fn is_empty(&self) -> (r: bool)
        ensures
            r == (self.amounts@.len() == 0),
    {
        self.amounts.len() == 0
    }

    pub fn get(&self, index: usize) -> (r: Option<&str>)
        ensures
            match r {
                Some(s) => index < self.amounts@.len() && s@ == self.amounts@[index as int]@,
                None => index >= self.amounts@.len(),
            },
    {
        if index < self.amounts.len() {
            Some(self.amounts[index].as_str())
        } else {
            None
        }
    }

    /// Labels for the price list UI (`Rs 100`, …).
    pub fn labels(&self) -> (v: Vec<String>)
        ensures
            v@.len() == self.amounts@.len(),
            forall|i: int|
                0 <= i < v@.len() ==> #[trigger] v@[i]@ == amount_label_spec(self.amounts@[i]@),
    {
        let mut v: Vec<String> = Vec::new();
        for i in 0..self.amounts.len()
            invariant
                v@.len() == i,
                forall|k: int|
                    0 <= k < i ==> #[trigger] v@[k]@ == amount_label_spec(self.amounts@[k]@),
        {
            v.push(format_amount_label(self.amounts[i].as_str()));
        }
        v
    }
}

/// Status of a collect attempt / stored payment.
#[derive(Debug, Clone, Copy, PartialEq, Eq, Hash, Structural)]
pub enum PaymentStatus {
    Draft,
    QrShown,
    Pending,
    Paid,
    Failed,
    Cancelled,
}

impl PaymentStatus {
    pub open spec fn label(self) -> Seq<char> {
        match self {
            PaymentStatus::Draft => "draft"@,
            PaymentStatus::QrShown => "qr"@,
            PaymentStatus::Pending => "pending"@,
            PaymentStatus::Paid => "paid"@,
            PaymentStatus::Failed => "failed"@,
            PaymentStatus::Cancelled => "cancelled"@,
        }
    }

    pub fn as_str(self) -> (s: &'static str)
        ensures
            s@ == self.label(),
    {
        match self {
            Self::Draft => "draft",
            Self::QrShown => "qr",
            Self::Pending => "pending",
            Self::Paid => "paid",
            Self::Failed => "failed",
            Self::Cancelled => "cancelled",
        }
    }
}

/// Active collect request (drives QR + waiting UI).
#[derive(Debug, Clone, PartialEq, Eq)]
pub struct PaymentRequest {
    pub amount_inr: String,
    pub note: String,
    pub uri: String,
    pub status: PaymentStatus,
}

impl PaymentRequest {
    pub fn new(merchant: &MerchantProfile, amount_inr: &str, note: &str) -> (r: Self)
        ensures
            r.amount_inr@ == amount_inr@,
            r.note@ == note@,
            r.uri@ == upi_uri_spec(merchant.vpa@, merchant.name@, amount_inr@, note@),
            r.status == PaymentStatus::Draft,
    {
        let uri = build_upi_uri(merchant.vpa.as_str(), merchant.name.as_str(), amount_inr, note);
        Self { amount_inr: owned(amount_inr), note: owned(note), uri, status: PaymentStatus::Draft }
    }

    pub fn amount_label(&self) -> (l: String)
        ensures
            l@ == amount_label_spec(self.amount_inr@),
    {
        format_amount_label(self.amount_inr.as_str())
    }

    pub fn mark_qr_shown(&mut self)
        ensures
            final(self).status == PaymentStatus::QrShown,
            final(self).amount_inr == old(self).amount_inr,
            final(self).note == old(self).note,
            final(self).uri == old(self).uri,
    {
        self.status = PaymentStatus::QrShown;
    }

    pub fn mark_pending(&mut self)
        ensures
            final(self).status == PaymentStatus::Pending,
            final(self).amount_inr == old(self).amount_inr,
            final(self).note == old(self).note,
            final(self).uri == old(self).uri,
    {
        self.status = PaymentStatus::Pending;
    }

    pub fn mark_paid(&mut self)
        ensures
            final(self).status == PaymentStatus::Paid,
            final(self).amount_inr == old(self).amount_inr,
            final(self).note == old(self).note,
            final(self).uri == old(self).uri,
    {
        self.status = PaymentStatus::Paid;
    }

    pub fn mark_failed(&mut self)
        ensures
            final(self).status == PaymentStatus::Failed,
            final(self).amount_inr == old(self).amount_inr,
            final(self).note == old(self).note,
            final(self).uri == old(self).uri,
    {
        self.status = PaymentStatus::Failed;
    }

    pub fn mark_cancelled(&mut self)
        ensures
            final(self).status == PaymentStatus::Cancelled,
            final(self).amount_inr == old(self).amount_inr,
            final(self).note == old(self).note,
            final(self).uri == old(self).uri,
    {
        self.status = PaymentStatus::Cancelled;
    }
}

/// Settled or in-progress payment for history list.
#[derive(Debug, Clone, PartialEq, Eq)]
pub struct PaymentRecord {
    pub num: i32,
    pub amount_inr: String,
    pub note: String,
    pub status: PaymentStatus,
}

/// `#NNN  Rs <amount>`.
pub open spec fn list_label_spec(num: i32, amount: Seq<char>) -> Seq<char> {
    "#"@ + fmt_int(num as int, 3) + "  "@ + amount_label_spec(amount)
}

impl PaymentRecord {
    pub fn list_label(&self) -> (l: String)
        ensures
            l@ == list_label_spec(self.num, self.amount_inr@),
    {
        let mut out = String::new();
        push_str(&mut out, "#");
        push_int_padded(&mut out, self.num as i64, 3);
        push_str(&mut out, "  ");
        push_str(&mut out, format_amount_label(self.amount_inr.as_str()).as_str());
        assert(out@ =~= list_label_spec(self.num, self.amount_inr@));
        out
    }
}

/// In-memory payment ledger (host + firmware until SD schema lands).
#[derive(Debug, Clone)]
pub struct PaymentLedger {
    pub records: Vec<PaymentRecord>,
    pub next_num: i32,
}

/// Paise total of all records.
pub open spec fn total_paise(records: Seq<PaymentRecord>) -> int
    decreases records.len(),
{
    if records.len() == 0 {
        0
    } else {
        total_paise(records.drop_last()) + parse_inr_paise_spec(records.last().amount_inr@)
    }
}

/// Every running total, and every amount on its own, fits in an `i64`.
pub open spec fn totals_fit(records: Seq<PaymentRecord>) -> bool {
    forall|k: int|
        0 <= k <= records.len() ==> {
            &&& i64::MIN <= #[trigger] total_paise(records.take(k)) <= i64::MAX
            &&& (k < records.len() ==> paise_fits(records[k].amount_inr@))
        }
}

/// Integer division rounding toward zero, as Rust's `/` does.
pub open spec fn trunc_div(a: int, b: int) -> int {
    if a >= 0 {
        a / b
    } else {
        -((-a) / b)
    }
}

/// `Rs <rupees>` or `Rs <rupees>.<paise>` for a paise total.
pub open spec fn total_label_spec(paise: int) -> Seq<char> {
    let rupees = trunc_div(paise, 100);
    let rem = if paise >= 0 { paise % 100 } else { (-paise) % 100 };
    if rem == 0 {
        amount_label_spec(fmt_int(rupees, 0) + ".00"@)
    } else {
        amount_label_spec(fmt_int(rupees, 0) + "."@ + fmt_int(rem, 2))
    }
}

impl PaymentLedger {
    /// Record numbers strictly increase along the ledger and stay below the
    /// next number to hand out.
    pub open spec fn numbered(&self) -> bool {
        &&& forall|i: int, j: int|
            0 <= i < j < self.records@.len() ==> #[trigger] self.records@[i].num
                < #[trigger] self.records@[j].num
        &&& forall|i: int| 0 <= i < self.records@.len() ==> #[trigger] self.records@[i].num < self.next_num
    }

    pub fn new() -> (l: Self)
        ensures
            l.records@.len() == 0,
            l.next_num == 1,
            l.numbered(),
    {
        Self { records: Vec::new(), next_num: 1 }
    }

    pub fn next_num(&self) -> (n: i32)
        ensures
            n == self.next_num,
    {
        self.next_num
    }

    /// Records a paid entry under the next number and returns it.
    pub fn push_paid(&mut self, amount_inr: &str, note: &str) -> (rec: PaymentRecord)
        requires
            old(self).next_num < i32::MAX,
        ensures
            rec.num == old(self).next_num,
            rec.amount_inr@ == amount_inr@,
            rec.note@ == note@,
            rec.status == PaymentStatus::Paid,
            final(self).next_num == old(self).next_num + 1,
            final(self).records@.len() == old(self).records@.len() + 1,
            final(self).records@.drop_last() == old(self).records@,
            final(self).records@.last().num == rec.num,
            final(self).records@.last().amount_inr@ == amount_inr@,
            final(self).records@.last().note@ == note@,
            final(self).records@.last().status == PaymentStatus::Paid,
            old(self).numbered() ==> final(self).numbered(),
    {
        let rec = PaymentRecord {
            num: self.next_num,
            amount_inr: owned(amount_inr),
            note: owned(note),
            status: PaymentStatus::Paid,
        };
        let kept = PaymentRecord {
            num: self.next_num,
            amount_inr: owned(amount_inr),
            note: owned(note),
            status: PaymentStatus::Paid,
        };
        self.next_num += 1;
        self.records.push(kept);
        assert(self.records@.drop_last() =~= old(self).records@);
        proof {
            if old(self).numbered() {
                assert forall|i: int, j: int|
                    0 <= i < j < self.records@.len() implies #[trigger] self.records@[i].num
                    < #[trigger] self.records@[j].num by {
                    assert(self.records@[i] == old(self).records@[i]);
                    if j < old(self).records@.len() {
                        assert(self.records@[j] == old(self).records@[j]);
                    }
                }
                assert forall|i: int| 0 <= i < self.records@.len() implies #[trigger] self.records@[i].num
                    < self.next_num by {
                    if i < old(self).records@.len() {
                        assert(self.records@[i] == old(self).records@[i]);
                    }
                }
            }
        }
        rec
    }

    pub fn len(&self) -> (n: usize)
        ensures
            n == self.records@.len(),
    {
        self.records.len()
    }

    pub fn is_empty(&self) -> (r: bool)
        ensures
            r == (self.records@.len() == 0),
    {
        self.records.len() == 0
    }

    /// All record labels, newest first.
    pub fn history_labels(&self) -> (v: Vec<String>)
        ensures
            v@.len() == self.records@.len(),
            forall|i: int|
                0 <= i < v@.len() ==> #[trigger] v@[i]@ == list_label_spec(
                    self.records@[self.records@.len() - 1 - i].num,
                    self.records@[self.records@.len() - 1 - i].amount_inr@,
                ),
    {
        self.recent_labels(self.records.len())
    }

    /// At most `max` record labels, newest first.
    pub fn recent_labels(&self, max: usize) -> (v: Vec<String>)
        ensures
            v@.len() == if max < self.records@.len() { max as int } else { self.records@.len() as int },
            forall|i: int|
                0 <= i < v@.len() ==> #[trigger] v@[i]@ == list_label_spec(
                    self.records@[self.records@.len() - 1 - i].num,
                    self.records@[self.records@.len() - 1 - i].amount_inr@,
                ),
    {
        let n = self.records.len();
        let count = if max < n { max } else { n };
        let mut v: Vec<String> = Vec::new();
        let mut i: usize = 0;
        while i < count
            invariant
                n == self.records@.len(),
                count <= n,
                i <= count,
                v@.len() == i,
                forall|k: int|
                    0 <= k < i ==> #[trigger] v@[k]@ == list_label_spec(
                        self.records@[n - 1 - k].num,
                        self.records@[n - 1 - k].amount_inr@,
                    ),
            decreases count - i,
        {
            v.push(self.records[n - 1 - i].list_label());
            i += 1;
        }
        v
    }

    /// The paise total, or `None` when an amount or a running total leaves `i64`
    /// (where `total_paid_label` would overflow).
    pub fn checked_total(&self) -> (r: Option<i64>)
        ensures
            r is Some <==> totals_fit(self.records@),
            r matches Some(t) ==> t == total_paise(self.records@),
    {
        let n = self.records.len();
        let mut paise: i64 = 0;
        let mut i: usize = 0;
        assert(self.records@.take(0) =~= Seq::<PaymentRecord>::empty());
        while i < n
            invariant
                n == self.records@.len(),
                i <= n,
                paise == total_paise(self.records@.take(i as int)),
                forall|k: int|
                    0 <= k <= i ==> {
                        &&& i64::MIN <= #[trigger] total_paise(self.records@.take(k)) <= i64::MAX
                        &&& (k < i ==> paise_fits(self.records@[k].amount_inr@))
                    },
            decreases n - i,
        {
            assert(self.records@.take(i + 1).drop_last() =~= self.records@.take(i as int));
            assert(self.records@.take(i + 1).last() == self.records@[i as int]);
            match checked_inr_paise(self.records[i].amount_inr.as_str()) {
                None => {
                    assert(i64::MIN <= total_paise(self.records@.take(i as int)) <= i64::MAX);
                    return None;
                },
                Some(p) => match paise.checked_add(p) {
                    None => {
                        assert(!(i64::MIN <= total_paise(self.records@.take(i + 1)) <= i64::MAX));
                        return None;
                    },
                    Some(t) => {
                        assert(total_paise(self.records@.take(i + 1)) == t);
                        assert forall|k: int| 0 <= k <= i + 1 implies {
                            &&& i64::MIN <= #[trigger] total_paise(self.records@.take(k)) <= i64::MAX
                            &&& (k < i + 1 ==> paise_fits(self.records@[k].amount_inr@))
                        } by {
                            if k <= i {
                                assert(i64::MIN <= total_paise(self.records@.take(k)) <= i64::MAX);
                            }
                        }
                        paise = t;
                    },
                },
            }
            i += 1;
        }
        assert(self.records@.take(n as int) =~= self.records@);
        Some(paise)
    }

    /// Sum of all amounts as a label (`Rs 125`, `Rs 12.50`).
    pub fn total_paid_label(&self) -> (l: String)
        requires
            totals_fit(self.records@),
        ensures
            l@ == total_label_spec(total_paise(self.records@)),
    {
        let n = self.records.len();
        let mut paise: i64 = 0;
        let mut i: usize = 0;
        while i < n
            invariant
                n == self.records@.len(),
                i <= n,
                totals_fit(self.records@),
                paise == total_paise(self.records@.take(i as int)),
            decreases n - i,
        {
            assert(self.records@.take(i + 1).drop_last() =~= self.records@.take(i as int));
            assert(self.records@.take(i + 1).last() == self.records@[i as int]);
            let p = parse_inr_paise(self.records[i].amount_inr.as_str());
            assert(i64::MIN <= total_paise(self.records@.take(i + 1)) <= i64::MAX);
            paise = paise + p;
            i += 1;
        }
        assert(self.records@.take(n as int) =~= self.records@);
        let rupees = paise / 100;
        let r = paise % 100;
        let rem: i64 = if r < 0 { -r } else { r };
        let mut text = String::new();
        push_int(&mut text, rupees);
        if rem == 0 {
            push_str(&mut text, ".00");
        } else {
            push_str(&mut text, ".");
            push_int_padded(&mut text, rem, 2);
        }
        proof {
            let t = paise as int;
            assert(rupees as int == trunc_div(t, 100));
            assert(rem as int == if t >= 0 { t % 100 } else { (-t) % 100 });
        }
        let out = format_amount_label(text.as_str());
        assert(out@ =~= total_label_spec(total_paise(self.records@)));
        out
    }
}

impl Default for PaymentLedger {
    fn default() -> (l: Self)
        ensures
            l.records@.len() == 0,
            l.next_num == 0,
    {
        Self { records: Vec::new(), next_num: 0 }
    }
}

/// The first `n` elements of `s`, or all of `s` when it is shorter.
pub open spec fn take_upto(s: Seq<char>, n: int) -> Seq<char> {
    if s.len() <= n {
        s
    } else {
        s.take(n)
    }
}

/// `v` padded on the right with `'0'` to two characters.
pub open spec fn pad2(v: Seq<char>) -> Seq<char> {
    if v.len() >= 2 {
        v
    } else if v.len() == 1 {
        v.push('0')
    } else {
        seq!['0', '0']
    }
}

/// Index of the first `'.'`.
pub open spec fn first_dot(s: Seq<char>) -> Option<int> {
    if s.contains('.') {
        Some(choose|i: int| 0 <= i < s.len() && s[i] == '.' && forall|j: int| 0 <= j < i ==> s[j] != '.')
    } else {
        None
    }
}

pub open spec fn unwrap_or_zero(o: Option<i64>) -> int {
    match o {
        Some(v) => v as int,
        None => 0,
    }
}

/// A trimmed amount with a dot at `p` is a number: an integer before the dot
/// and only digits after it.
pub open spec fn dotted_ok(s: Seq<char>, p: int) -> bool {
    parse_i64_spec(s.subrange(0, p)) is Some && all_digits(s.subrange(p + 1, s.len() as int))
}

/// The amount in paise: whole rupees ×100 plus the first two fraction digits;
/// 0 for an empty amount or one that is not a number.
pub open spec fn parse_inr_paise_spec(amount: Seq<char>) -> int {
    let s = trim(amount);
    if s.len() == 0 {
        0
    } else {
        match first_dot(s) {
            Some(p) => if dotted_ok(s, p) {
                let w = unwrap_or_zero(parse_i64_spec(s.subrange(0, p)));
                let f = unwrap_or_zero(parse_i64_spec(pad2(take_upto(s.subrange(p + 1, s.len() as int), 2))));
                w * 100 + f
            } else {
                0
            },
            None => unwrap_or_zero(parse_i64_spec(s)) * 100,
        }
    }
}

/// The intermediate products of `parse_inr_paise` stay inside `i64`.
pub open spec fn paise_fits(amount: Seq<char>) -> bool {
    let s = trim(amount);
    s.len() == 0 || match first_dot(s) {
        Some(p) => {
            let w = unwrap_or_zero(parse_i64_spec(s.subrange(0, p)));
            dotted_ok(s, p) ==> (i64::MIN <= w * 100 <= i64::MAX && i64::MIN <= parse_inr_paise_spec(amount)
                <= i64::MAX)
        },
        None => i64::MIN <= parse_inr_paise_spec(amount) <= i64::MAX,
    }
}

proof fn lemma_two_char_value(fs: Seq<char>)
    requires
        fs.len() == 2,
    ensures
        unwrap_or_zero(parse_i64_spec(fs)) >= -9,
        unwrap_or_zero(parse_i64_spec(fs)) <= 99,
{
    reveal_with_fuel(digits_value, 3);
    let r = fs.drop_first();
    assert(r.drop_last().len() == 0);
    assert(fs.drop_last().drop_last().len() == 0);
    if all_digits(r) {
        assert(0 <= (r.last() as u32) - 48 <= 9);
    }
    if all_digits(fs) {
        assert(fs.drop_last().last() == fs[0]);
        assert(0 <= (fs[0] as u32) - 48 <= 9);
        assert(0 <= (fs.last() as u32) - 48 <= 9);
    }
}

/// Parse `"100.00"` / `"50"` into paise (×100). Empty / invalid → 0.
pub fn parse_inr_paise(amount_inr: &str) -> (p: i64)
    requires
        paise_fits(amount_inr@),
    ensures
        p == parse_inr_paise_spec(amount_inr@),
{
    match checked_inr_paise(amount_inr) {
        Some(p) => p,
        None => 0,
    }
}

/// `parse_inr_paise`, or `None` when its arithmetic would leave `i64`.
pub fn checked_inr_paise(amount_inr: &str) -> (r: Option<i64>)
    ensures
        r is Some <==> paise_fits(amount_inr@),
        r matches Some(p) ==> p == parse_inr_paise_spec(amount_inr@),
{
    let raw = chars_of(amount_inr);
    let s = trim_chars(&raw);
    if s.len() == 0 {
        return Some(0);
    }
    let mut pos: usize = 0;
    while pos < s.len() && s[pos] != '.'
        invariant
            pos <= s@.len(),
            forall|j: int| 0 <= j < pos ==> s@[j] != '.',
        decreases s@.len() - pos,
    {
        pos += 1;
    }
    if pos < s.len() {
        proof {
            assert(s@.contains('.'));
            let c = choose|i: int| 0 <= i < s@.len() && s@[i] == '.' && forall|j: int| 0 <= j < i ==> s@[j] != '.';
            assert(c == pos) by {
                if c < pos {
                } else if c > pos {
                }
            }
        }
        let mut whole: Vec<char> = Vec::new();
        let mut i: usize = 0;
        while i < pos
            invariant
                i <= pos < s@.len(),
                whole@ == s@.subrange(0, i as int),
            decreases pos - i,
        {
            whole.push(s[i]);
            i += 1;
            assert(whole@ =~= s@.subrange(0, i as int));
        }
        let w: i64 = match parse_i64(&whole) {
            Some(v) => v,
            None => return Some(0),
        };
        let mut d: usize = pos + 1;
        while d < s.len()
            invariant
                pos + 1 <= d <= s@.len(),
                all_digits(s@.subrange(pos + 1, d as int)),
                s@ == trim(amount_inr@),
                s@.len() > 0,
                first_dot(s@) == Some(pos as int),
            decreases s@.len() - d,
        {
            if !('0' <= s[d] && s[d] <= '9') {
                assert(!all_digits(s@.subrange(pos + 1, s@.len() as int))) by {
                    assert(s@.subrange(pos + 1, s@.len() as int)[d - pos - 1] == s@[d as int]);
                }
                return Some(0);
            }
            d += 1;
            assert forall|k: int| 0 <= k < d - pos - 1 implies crate::text::is_ascii_digit(#[trigger] s@.subrange(pos + 1, d as int)[k]) by {
                if k < d - pos - 2 {
                    assert(s@.subrange(pos + 1, d as int)[k] == s@.subrange(pos + 1, d - 1)[k]);
                }
            }
        }
        assert(dotted_ok(s@, pos as int));
        let mut frac: Vec<char> = Vec::new();
        let mut j: usize = pos + 1;
        while j < s.len() && frac.len() < 2
            invariant
                pos + 1 <= j <= s@.len(),
                frac@ == s@.subrange(pos + 1, j as int),
                frac@.len() <= 2,
            decreases s@.len() - j,
        {
            frac.push(s[j]);
            j += 1;
            assert(frac@ =~= s@.subrange(pos + 1, j as int));
        }
        proof {
            let suffix = s@.subrange(pos + 1, s@.len() as int);
            if j == s.len() {
                assert(frac@ =~= suffix);
            } else {
                assert(frac@ =~= take_upto(suffix, 2));
            }
        }
        while frac.len() < 2
            invariant
                pad2(frac@) == pad2(take_upto(s@.subrange(pos + 1, s@.len() as int), 2)),
            decreases 2 - frac@.len(),
        {
            frac.push('0');
        }
        assert(pad2(frac@) == frac@);
        let f: i64 = match parse_i64(&frac) {
            Some(v) => v,
            None => 0,
        };
        proof {
            lemma_two_char_value(frac@);
        }
        match w.checked_mul(100) {
            Some(w100) => w100.checked_add(f),
            None => None,
        }
    } else {
        proof {
            assert(!s@.contains('.'));
        }
        let v: i64 = match parse_i64(&s) {
            Some(v) => v,
            None => 0,
        };
        v.checked_mul(100)
    }
}

/// Appending a record whose amount parses, and keeps the running total inside
/// `i64`, keeps every total of the ledger inside `i64`.
pub proof fn lemma_totals_fit_push(records: Seq<PaymentRecord>, rec: PaymentRecord)
    requires
        totals_fit(records),
        paise_fits(rec.amount_inr@),
        i64::MIN <= total_paise(records) + parse_inr_paise_spec(rec.amount_inr@) <= i64::MAX,
    ensures
        totals_fit(records.push(rec)),
        total_paise(records.push(rec)) == total_paise(records) + parse_inr_paise_spec(rec.amount_inr@),
{
    let r2 = records.push(rec);
    assert(r2.drop_last() =~= records);
    assert(records.take(records.len() as int) =~= records);
    assert forall|k: int| 0 <= k <= r2.len() implies {
        &&& i64::MIN <= #[trigger] total_paise(r2.take(k)) <= i64::MAX
        &&& (k < r2.len() ==> paise_fits(r2[k].amount_inr@))
    } by {
        if k <= records.len() {
            assert(r2.take(k) =~= records.take(k));
        } else {
            assert(r2.take(k) =~= r2);
        }
    }
}

proof fn lemma_trim_same(s: Seq<char>)
    requires
        s.len() > 0,
        !is_ws(s[0]),
        !is_ws(s.last()),
    ensures
        trim(s) == s,
{
    assert(trim_start(s) == s);
    assert(trim_end(s) == s);
}

/// A digit string keeps every suffix that starts with a dot.
proof fn lemma_strip_digits(d: Seq<char>, suf: Seq<char>)
    requires
        all_digits(d),
        suf.len() > 0,
        suf[0] == '.',
    ensures
        strip_suffix_all(d, suf) == d,
{
    if d.len() >= suf.len() {
        let tail = d.subrange(d.len() - suf.len(), d.len() as int);
        assert(tail[0] == d[d.len() - suf.len()]);
        assert(is_ascii_digit(d[d.len() - suf.len()]));
        assert(tail != suf);
    }
}

proof fn lemma_first_dot_at(s: Seq<char>, p: int)
    requires
        0 <= p < s.len(),
        s[p] == '.',
        forall|j: int| 0 <= j < p ==> s[j] != '.',
    ensures
        first_dot(s) == Some(p),
{
    assert(s.contains('.'));
    let c = choose|i: int| 0 <= i < s.len() && s[i] == '.' && forall|j: int| 0 <= j < i ==> s[j] != '.';
    assert(c == p) by {
        if c < p {
            assert(s[c] != '.');
        } else if c > p {
            assert(s[p] != '.');
        }
    }
}

/// The total label of a paise total `t` that is not negative reads back as
/// `t`: it is `Rs ` followed by an amount that `parse_inr_paise` turns into
/// exactly `t` paise, so the paise show as two digits (`Rs 12.05` for 1205).
pub proof fn lemma_total_label_reads_back(t: int)
    requires
        0 <= t <= i64::MAX,
    ensures
        total_label_spec(t).subrange(0, 3) == "Rs "@,
        parse_inr_paise_spec(total_label_spec(t).skip(3)) == t,
{
    reveal_strlit("Rs ");
    reveal_strlit(".00");
    reveal_strlit(".");
    let r = t / 100;
    let rem = t % 100;
    assert(trunc_div(t, 100) == r);
    lemma_fmt_int_parses(r as nat, 0);
    let d = fmt_int(r, 0);
    assert(parse_i64_spec(d) == Some(r as i64));
    let dotted00 = seq!['.', '0', '0'];
    let dotted0 = seq!['.', '0'];
    if rem == 0 {
        let x = d + ".00"@;
        assert(x.len() > 0);
        let tail = x.subrange(x.len() - 3, x.len() as int);
        assert(tail =~= dotted00);
        assert(x.subrange(0, x.len() - 3) =~= d);
        lemma_strip_digits(d, dotted00);
        assert(strip_suffix_all(x, dotted00) == d);
        lemma_strip_digits(d, dotted0);
        let label = amount_label_spec(x);
        assert(label == "Rs "@ + d);
        assert(label.subrange(0, 3) =~= "Rs "@);
        assert(label.skip(3) =~= d);
        lemma_trim_same(d);
        assert(!d.contains('.')) by {
            if d.contains('.') {
                let i = choose|i: int| 0 <= i < d.len() && d[i] == '.';
                assert(is_ascii_digit(d[i]));
            }
        }
        assert(first_dot(d) is None);
        assert(r * 100 == t);
    } else {
        lemma_fmt_int_parses(rem as nat, 2);
        lemma_dec_digits_len(rem as nat);
        let f = fmt_int(rem, 2);
        assert(f.len() == 2);
        let x = d + "."@ + f;
        let tail3 = x.subrange(x.len() - 3, x.len() as int);
        assert(tail3 =~= seq!['.'] + f);
        if tail3 == dotted00 {
            assert(f =~= seq!['0', '0']);
            assert(f.drop_last() =~= seq!['0']);
            assert(f.drop_last().drop_last().len() == 0);
            assert(('0' as u32) == 48);
            assert(f.last() == '0' && f.drop_last().last() == '0');
            assert(digits_value(f.drop_last().drop_last()) == 0);
            assert(digits_value(f.drop_last()) == 0);
            assert(digits_value(f) == 0);
        }
        assert(strip_suffix_all(x, dotted00) == x);
        let tail2 = x.subrange(x.len() - 2, x.len() as int);
        assert(tail2 =~= f);
        assert(is_ascii_digit(f[0]));
        assert(tail2 != dotted0);
        assert(strip_suffix_all(x, dotted0) == x);
        let label = amount_label_spec(x);
        assert(label == "Rs "@ + x);
        assert(label.subrange(0, 3) =~= "Rs "@);
        assert(label.skip(3) =~= x);
        assert(x[0] == d[0]);
        assert(x.last() == f[1]);
        assert(is_ascii_digit(f[1]));
        lemma_trim_same(x);
        let p = d.len() as int;
        assert(x[p] == '.');
        assert forall|j: int| 0 <= j < p implies x[j] != '.' by {
            assert(x[j] == d[j]);
            assert(is_ascii_digit(d[j]));
        }
        lemma_first_dot_at(x, p);
        assert(x.subrange(0, p) =~= d);
        assert(x.subrange(p + 1, x.len() as int) =~= f);
        assert(take_upto(f, 2) == f);
        assert(pad2(f) == f);
        assert(parse_i64_spec(f) == Some(rem as i64));
        assert(dotted_ok(x, p));
        assert(r * 100 + rem == t);
    }
}

} // verus!
