//! Sizes as `yandex-disk status` writes them ("38.93 MB"), read in every
//! form a floating-point number is written (sign, digits, one decimal point,
//! exponent; infinity and not-a-number), finite ones exactly as decimal
//! numbers of bytes, and the share of the storage in use.
use vstd::prelude::*;

use crate::text::{
    chars_of, find_char, index_of, is_text, lower, lower_chars, next_word, slice, string_of, words,
};

verus! {

pub open spec fn pow10(n: nat) -> int
    decreases n,
{
    if n == 0 {
        1
    } else {
        10 * pow10((n - 1) as nat)
    }
}

pub open spec fn pow1024(n: nat) -> int
    decreases n,
{
    if n == 0 {
        1
    } else {
        1024 * pow1024((n - 1) as nat)
    }
}

pub open spec fn is_digit(c: char) -> bool {
    '0' <= c && c <= '9'
}

pub open spec fn all_digits(d: Seq<char>) -> bool {
    forall|i: int| 0 <= i < d.len() ==> is_digit(#[trigger] d[i])
}

/// The number a string of decimal digits stands for.
pub open spec fn digits_value(d: Seq<char>) -> int
    decreases d.len(),
{
    if d.len() == 0 {
        0
    } else {
        digits_value(d.drop_last()) * 10 + (d.last() as int - 48)
    }
}

pub open spec fn comma_to_dot(s: Seq<char>) -> Seq<char> {
    s.map_values(|c: char| if c == ',' { '.' } else { c })
}

pub open spec fn strip_sign(u: Seq<char>) -> (bool, Seq<char>) {
    if u.len() > 0 && u[0] == '-' {
        (true, u.drop_first())
    } else if u.len() > 0 && u[0] == '+' {
        (false, u.drop_first())
    } else {
        (false, u)
    }
}

/// The parts of a written number: its sign, the digits before the decimal
/// point (`,` counts as a point), the digits after it, and the text after
/// `e` or `E` when there is one.
pub open spec fn number_split(w: Seq<char>) -> (bool, Seq<char>, Seq<char>, Option<Seq<char>>) {
    let (neg, body) = strip_sign(comma_to_dot(w));
    let ie = index_of(lower(body), 'e');
    let mant = body.take(ie);
    let i = index_of(mant, '.');
    let whole = mant.take(i);
    let frac = if i < mant.len() {
        mant.skip(i + 1)
    } else {
        Seq::empty()
    };
    (neg, whole, frac, if ie < body.len() {
        Some(body.skip(ie + 1))
    } else {
        None
    })
}

/// An exponent: an optional sign and at least one digit.
pub open spec fn exponent_of(e: Seq<char>) -> Option<int> {
    let (neg, d) = strip_sign(e);
    if d.len() > 0 && all_digits(d) {
        Some(if neg {
            -digits_value(d)
        } else {
            digits_value(d)
        })
    } else {
        None
    }
}

/// A number as read: finite (its sign, an integer and the power of ten it is
/// scaled by), infinite (with its sign), or not a number.
pub enum SizeValue {
    Finite(bool, int, int),
    Infinite(bool),
    NotANumber,
}

/// The words a floating-point number is also written with (ASCII case
/// ignored, after an optional sign): `inf`, `infinity` and `nan`.
pub open spec fn special_number(w: Seq<char>) -> Option<SizeValue> {
    let (neg, body) = strip_sign(comma_to_dot(w));
    let l = lower(body);
    if l == "inf"@ || l == "infinity"@ {
        Some(SizeValue::Infinite(neg))
    } else if l == "nan"@ {
        Some(SizeValue::NotANumber)
    } else {
        None
    }
}

/// A number as a floating-point number is written: one of the special
/// words, or digits with at most one decimal point and at least one digit,
/// then optionally an exponent. A finite number is its digits' integer times
/// ten to the power of the exponent less the count of digits after the
/// point, signed.
pub open spec fn size_number(w: Seq<char>) -> Option<SizeValue> {
    match special_number(w) {
        Some(v) => Some(v),
        None => {
            let (neg, whole, frac, exp) = number_split(w);
            let x = match exp {
                Some(e) => exponent_of(e),
                None => Some(0),
            };
            if all_digits(whole) && all_digits(frac) && whole.len() + frac.len() > 0 {
                match x {
                    Some(x) => Some(SizeValue::Finite(neg, digits_value(whole + frac), x - frac.len())),
                    None => None,
                }
            } else {
                None
            }
        },
    }
}

/// The power of 1024 a unit stands for (ASCII case ignored).
pub open spec fn unit_power(u: Seq<char>) -> Option<nat> {
    let l = lower(u);
    if l == "b"@ || l == "byte"@ || l == "bytes"@ {
        Some(0)
    } else if l == "kb"@ || l == "kib"@ {
        Some(1)
    } else if l == "mb"@ || l == "mib"@ {
        Some(2)
    } else if l == "gb"@ || l == "gib"@ {
        Some(3)
    } else if l == "tb"@ || l == "tib"@ {
        Some(4)
    } else {
        None
    }
}

/// The number of bytes a size stands for. The first word is the number, the
/// second the unit (bytes when there is none); later words are ignored.
pub open spec fn size_bytes(value: Seq<char>) -> Option<SizeValue> {
    let ws = words(value);
    if ws.len() == 0 {
        None
    } else {
        match size_number(ws[0]) {
            None => None,
            Some(n) => match unit_power(if ws.len() > 1 { ws[1] } else { "B"@ }) {
                None => None,
                Some(k) => Some(
                    match n {
                        SizeValue::Finite(neg, m, e) => SizeValue::Finite(neg, m * pow1024(k), e),
                        other => other,
                    },
                ),
            },
        }
    }
}

/// Whether `mu` times ten to the `eu` is larger than `mt` times ten to the
/// `et`, both scaled by the smaller power.
pub open spec fn scaled_greater(mu: int, eu: int, mt: int, et: int) -> bool {
    let m = if eu < et {
        eu
    } else {
        et
    };
    mu * pow10((eu - m) as nat) > mt * pow10((et - m) as nat)
}

/// The share `used / total` clamped to `0..=1` as floating-point division
/// and clamping give it, when both sizes can be read and the total is
/// positive (no share for a total that is not). The share is `None` where
/// floating point gives not-a-number (an infinite or not-a-number used size
/// over an infinite total, a not-a-number used size), otherwise an exact
/// numerator and denominator, each an integer and a power of ten.
pub open spec fn used_share(used: Seq<char>, total: Seq<char>) -> Option<Option<(int, int, int, int)>> {
    match (size_bytes(used), size_bytes(total)) {
        (Some(u), Some(SizeValue::Infinite(false))) => match u {
            SizeValue::Finite(_, _, _) => Some(Some((0, 0, 1, 0))),
            _ => Some(None),
        },
        (Some(u), Some(SizeValue::Finite(nt, mt, et))) => if !nt && mt > 0 {
            match u {
                SizeValue::NotANumber => Some(None),
                SizeValue::Infinite(false) => Some(Some((mt, et, mt, et))),
                SizeValue::Infinite(true) => Some(Some((0, 0, mt, et))),
                SizeValue::Finite(nu, mu, eu) => if nu || mu == 0 {
                    Some(Some((0, 0, mt, et)))
                } else if scaled_greater(mu, eu, mt, et) {
                    Some(Some((mt, et, mt, et)))
                } else {
                    Some(Some((mu, eu, mt, et)))
                },
            }
        } else {
            None
        },
        _ => None,
    }
}

/// An exponent written as a sign and decimal digits, less a count.
#[derive(Clone, Debug, PartialEq, Eq)]
pub struct Exponent {
    pub negative: bool,
    pub digits: String,
    pub less: usize,
}

/// A number written as decimal digits times ten to an exponent.
#[derive(Clone, Debug, PartialEq, Eq)]
pub struct Decimal {
    pub digits: String,
    pub exponent: Exponent,
}

/// A share of a whole, `numerator / denominator`.
#[derive(Clone, Debug, PartialEq, Eq)]
pub struct Fraction {
    pub numerator: Decimal,
    pub denominator: Decimal,
}

/// The share of the storage in use: a fraction, or not a number.
#[derive(Clone, Debug, PartialEq, Eq)]
pub enum Share {
    Ratio(Fraction),
    NotANumber,
}

/// The value of an exponent's sign, digits and count.
pub open spec fn exponent_value(negative: bool, digits: Seq<char>, less: int) -> int {
    (if negative {
        -digits_value(digits)
    } else {
        digits_value(digits)
    }) - less
}

impl Exponent {
    pub open spec fn wf(self) -> bool {
        self.digits@.len() > 0 && all_digits(self.digits@)
    }

    pub open spec fn value(self) -> int {
        exponent_value(self.negative, self.digits@, self.less as int)
    }
}

impl Decimal {
    pub open spec fn wf(self) -> bool {
        self.digits@.len() > 0 && all_digits(self.digits@) && self.exponent.wf()
    }

    /// The integer of the digits and the exponent.
    pub open spec fn parts(self) -> (int, int) {
        (digits_value(self.digits@), self.exponent.value())
    }
}

impl Fraction {
    pub open spec fn wf(self) -> bool {
        self.numerator.wf() && self.denominator.wf()
    }

    pub open spec fn parts(self) -> (int, int, int, int) {
        (self.numerator.parts().0, self.numerator.parts().1, self.denominator.parts().0,
            self.denominator.parts().1)
    }
}

/// What a share stands for: `None` for not-a-number.
pub open spec fn share_parts(s: Share) -> Option<(int, int, int, int)> {
    match s {
        Share::Ratio(f) => Some(f.parts()),
        Share::NotANumber => None,
    }
}

// ---------------------------------------------------------------------------
// Digits and powers
// ---------------------------------------------------------------------------

proof fn lemma_pow_pos(n: nat)
    ensures
        pow10(n) >= 1,
        pow1024(n) >= 1,
    decreases n,
{
    if n > 0 {
        lemma_pow_pos((n - 1) as nat);
    }
}

proof fn lemma_pow10_monotone(a: nat, b: nat)
    requires
        a <= b,
    ensures
        pow10(a) <= pow10(b),
    decreases b,
{
    lemma_pow_pos(b);
    if a < b {
        lemma_pow10_monotone(a, (b - 1) as nat);
    }
}

proof fn lemma_pow10_add(a: nat, b: nat)
    ensures
        pow10(a + b) == pow10(a) * pow10(b),
    decreases b,
{
    if b > 0 {
        lemma_pow10_add(a, (b - 1) as nat);
        assert(pow10(a + b) == 10 * pow10((a + b - 1) as nat));
        let p = pow10(a);
        let q = pow10((b - 1) as nat);
        assert(10 * (p * q) == p * (10 * q)) by (nonlinear_arith);
    }
}

/// The digits of `p` followed by those of `q`.
proof fn lemma_digits_append(p: Seq<char>, q: Seq<char>)
    ensures
        digits_value(p + q) == digits_value(p) * pow10(q.len()) + digits_value(q),
    decreases q.len(),
{
    if q.len() == 0 {
        assert(p + q =~= p);
    } else {
        let q1 = q.drop_last();
        lemma_digits_append(p, q1);
        assert((p + q).drop_last() =~= p + q1);
        assert((p + q).last() == q.last());
        let vp = digits_value(p);
        let v1 = digits_value(q1);
        let w = pow10(q1.len());
        let d = q.last() as int - 48;
        assert(pow10(q.len()) == 10 * w);
        assert((vp * w + v1) * 10 + d == vp * (10 * w) + (v1 * 10 + d)) by (nonlinear_arith);
    }
}

proof fn lemma_digit_value(c: char)
    ensures
        digits_value(seq![c]) == c as int - 48,
{
    assert(seq![c].drop_last() =~= Seq::<char>::empty());
    assert(digits_value(Seq::<char>::empty()) == 0);
    assert(seq![c].last() == c);
}

proof fn lemma_digits_bound(s: Seq<char>)
    requires
        all_digits(s),
    ensures
        0 <= digits_value(s) < pow10(s.len()),
    decreases s.len(),
{
    if s.len() > 0 {
        let s1 = s.drop_last();
        assert(all_digits(s1)) by {
            assert forall|i: int| 0 <= i < s1.len() implies is_digit(#[trigger] s1[i]) by {
                assert(s1[i] == s[i]);
            }
        }
        lemma_digits_bound(s1);
        assert(is_digit(s[s.len() - 1]));
        let v = digits_value(s1);
        let w = pow10(s1.len());
        let d = s.last() as int - 48;
        assert(0 <= v * 10 + d < 10 * w) by (nonlinear_arith)
            requires
                0 <= v < w,
                0 <= d <= 9,
        ;
    }
}

/// Digits that do not start with a zero are worth at least ten to the power
/// of their count less one.
proof fn lemma_digits_lead(s: Seq<char>)
    requires
        all_digits(s),
        s.len() > 0,
        s[0] != '0',
    ensures
        digits_value(s) >= pow10((s.len() - 1) as nat),
{
    let rest = s.drop_first();
    assert(s =~= seq![s[0]] + rest);
    lemma_digits_append(seq![s[0]], rest);
    lemma_digit_value(s[0]);
    assert(is_digit(s[0]));
    assert(all_digits(rest)) by {
        assert forall|i: int| 0 <= i < rest.len() implies is_digit(#[trigger] rest[i]) by {
            assert(rest[i] == s[i + 1]);
        }
    }
    lemma_digits_bound(rest);
    let d = s[0] as int - 48;
    let w = pow10(rest.len());
    assert(d * w >= w) by (nonlinear_arith)
        requires
            d >= 1,
            w >= 0,
    ;
}

proof fn lemma_zero_digits(s: Seq<char>)
    requires
        forall|i: int| 0 <= i < s.len() ==> s[i] == '0',
    ensures
        digits_value(s) == 0,
    decreases s.len(),
{
    if s.len() > 0 {
        lemma_zero_digits(s.drop_last());
    }
}

proof fn lemma_all_digits_parts(s: Seq<char>, i: int)
    requires
        all_digits(s),
        0 <= i <= s.len(),
    ensures
        all_digits(s.take(i)),
        all_digits(s.skip(i)),
{
    assert forall|j: int| 0 <= j < s.take(i).len() implies is_digit(#[trigger] s.take(i)[j]) by {
        assert(s.take(i)[j] == s[j]);
    }
    assert forall|j: int| 0 <= j < s.skip(i).len() implies is_digit(#[trigger] s.skip(i)[j]) by {
        assert(s.skip(i)[j] == s[i + j]);
    }
}

/// Equal-length digits that agree up to a place and are smaller there are
/// worth less.
proof fn lemma_digits_order(x: Seq<char>, y: Seq<char>, i: int)
    requires
        x.len() == y.len(),
        all_digits(x),
        all_digits(y),
        0 <= i < x.len(),
        x.take(i) == y.take(i),
        (x[i] as int) < (y[i] as int),
    ensures
        digits_value(x) < digits_value(y),
{
    let n = x.len();
    lemma_all_digits_parts(x, i + 1);
    lemma_all_digits_parts(y, i + 1);
    assert(x =~= x.take(i) + (seq![x[i]] + x.skip(i + 1)));
    assert(y =~= y.take(i) + (seq![y[i]] + y.skip(i + 1)));
    lemma_digits_append(x.take(i), seq![x[i]] + x.skip(i + 1));
    lemma_digits_append(y.take(i), seq![y[i]] + y.skip(i + 1));
    lemma_digits_append(seq![x[i]], x.skip(i + 1));
    lemma_digits_append(seq![y[i]], y.skip(i + 1));
    lemma_digit_value(x[i]);
    lemma_digit_value(y[i]);
    lemma_digits_bound(x.skip(i + 1));
    lemma_digits_bound(y.skip(i + 1));
    let q = pow10((n - i - 1) as nat);
    let rx = digits_value(x.skip(i + 1));
    let ry = digits_value(y.skip(i + 1));
    let dx = x[i] as int - 48;
    let dy = y[i] as int - 48;
    assert(dx * q + rx < dy * q + ry) by (nonlinear_arith)
        requires
            dx + 1 <= dy,
            0 <= rx < q,
            0 <= ry,
    ;
}

// ---------------------------------------------------------------------------
// Decimal digits in code
// ---------------------------------------------------------------------------

fn digit_char(k: u32) -> (c: char)
    requires
        k < 10,
    ensures
        c as int == k + 48,
        is_digit(c),
{
    if k == 0 {
        '0'
    } else if k == 1 {
        '1'
    } else if k == 2 {
        '2'
    } else if k == 3 {
        '3'
    } else if k == 4 {
        '4'
    } else if k == 5 {
        '5'
    } else if k == 6 {
        '6'
    } else if k == 7 {
        '7'
    } else if k == 8 {
        '8'
    } else {
        '9'
    }
}

/// The digits of `c` times a number.
fn times_small(d: &Vec<char>, c: u32) -> (r: Vec<char>)
    requires
        all_digits(d@),
        1 <= c <= 1024,
    ensures
        all_digits(r@),
        digits_value(r@) == c * digits_value(d@),
{
    let mut out: Vec<char> = Vec::new();
    let mut carry: u32 = 0;
    let mut i: usize = d.len();
    proof {
        assert(d@.skip(d.len() as int) =~= Seq::<char>::empty());
    }
    while i > 0
        invariant
            i <= d.len(),
            all_digits(d@),
            all_digits(out@),
            out.len() == d.len() - i,
            1 <= c <= 1024,
            carry < c,
            c * digits_value(d@.skip(i as int)) == carry * pow10(out.len() as nat) + digits_value(out@),
        decreases i,
    {
        i = i - 1;
        let ch = d[i];
        assert(is_digit(d@[i as int]));
        assert(ch == d@[i as int]);
        let x: u32 = (ch as u32) - 48;
        assert(x <= 9);
        assert(c * x <= 9216) by (nonlinear_arith)
            requires
                c <= 1024,
                x <= 9,
        ;
        let y: u32 = c * x + carry;
        let dig = digit_char(y % 10);
        let ghost old_out = out@;
        let ghost k = out.len() as nat;
        out.insert(0, dig);
        proof {
            assert(out@ =~= seq![dig] + old_out);
            lemma_digits_append(seq![dig], old_out);
            lemma_digit_value(dig);
            assert(d@.skip(i as int) =~= seq![d@[i as int]] + d@.skip(i + 1));
            lemma_digits_append(seq![d@[i as int]], d@.skip(i + 1));
            lemma_digit_value(d@[i as int]);
            let p = pow10(k);
            assert(pow10(k + 1) == 10 * p);
            let rest = digits_value(d@.skip(i + 1));
            let v = digits_value(old_out);
            assert(c * (x * p + rest) == (y / 10) * (10 * p) + ((y % 10) * p + v)) by (nonlinear_arith)
                requires
                    c * rest == carry * p + v,
                    y == c * x + carry,
            ;
            assert forall|j: int| 0 <= j < out@.len() implies is_digit(#[trigger] out@[j]) by {
                if j > 0 {
                    assert(out@[j] == old_out[j - 1]);
                }
            }
            assert(y / 10 < c) by (nonlinear_arith)
                requires
                    y == c * x + carry,
                    x <= 9,
                    carry < c,
            ;
        }
        carry = y / 10;
    }
    assert(d@.skip(0) =~= d@);
    while carry > 0
        invariant
            all_digits(out@),
            c * digits_value(d@) == carry * pow10(out.len() as nat) + digits_value(out@),
        decreases carry,
    {
        let dig = digit_char(carry % 10);
        let ghost old_out = out@;
        let ghost k = out.len() as nat;
        out.insert(0, dig);
        proof {
            assert(out@ =~= seq![dig] + old_out);
            lemma_digits_append(seq![dig], old_out);
            lemma_digit_value(dig);
            let p = pow10(k);
            assert(pow10(k + 1) == 10 * p);
            let v = digits_value(old_out);
            assert(carry * p + v == (carry / 10) * (10 * p) + ((carry % 10) * p + v)) by (nonlinear_arith);
            assert forall|j: int| 0 <= j < out@.len() implies is_digit(#[trigger] out@[j]) by {
                if j > 0 {
                    assert(out@[j] == old_out[j - 1]);
                }
            }
        }
        carry = carry / 10;
    }
    proof {
        lemma_pow_pos(out.len() as nat);
    }
    out
}

/// The digits without their leading zeros.
fn strip_zeros(d: &Vec<char>) -> (r: Vec<char>)
    requires
        all_digits(d@),
    ensures
        all_digits(r@),
        digits_value(r@) == digits_value(d@),
        r.len() == 0 || r@[0] != '0',
{
    let mut k: usize = 0;
    while k < d.len() && d[k] == '0'
        invariant
            k <= d.len(),
            forall|j: int| 0 <= j < k ==> d@[j] == '0',
        decreases d.len() - k,
    {
        k = k + 1;
    }
    let r = slice(d, k, d.len());
    proof {
        assert(r@ =~= d@.skip(k as int));
        assert(d@ =~= d@.take(k as int) + d@.skip(k as int));
        lemma_digits_append(d@.take(k as int), d@.skip(k as int));
        lemma_zero_digits(d@.take(k as int));
        lemma_all_digits_parts(d@, k as int);
    }
    r
}

/// The digits followed by `z` zeros.
fn with_zeros(d: &Vec<char>, z: usize) -> (r: Vec<char>)
    requires
        all_digits(d@),
    ensures
        all_digits(r@),
        r.len() == d.len() + z,
        digits_value(r@) == digits_value(d@) * pow10(z as nat),
{
    let mut r = d.clone();
    let mut j: usize = 0;
    while j < z
        invariant
            j <= z,
            all_digits(r@),
            r.len() == d.len() + j,
            digits_value(r@) == digits_value(d@) * pow10(j as nat),
        decreases z - j,
    {
        let ghost before = r@;
        r.push('0');
        proof {
            assert(r@.drop_last() =~= before);
            let v = digits_value(d@);
            let p = pow10(j as nat);
            assert(pow10((j + 1) as nat) == 10 * p);
            assert((v * p) * 10 == v * (10 * p)) by (nonlinear_arith);
            assert forall|i: int| 0 <= i < r@.len() implies is_digit(#[trigger] r@[i]) by {
                if i < before.len() {
                    assert(r@[i] == before[i]);
                }
            }
        }
        j = j + 1;
    }
    r
}

/// Compares the numbers of two equally long strings of digits: negative,
/// zero or positive as the first is smaller, equal or larger.
fn compare_digits(x: &Vec<char>, y: &Vec<char>) -> (r: i8)
    requires
        x.len() == y.len(),
        all_digits(x@),
        all_digits(y@),
    ensures
        (r < 0) == (digits_value(x@) < digits_value(y@)),
        (r == 0) == (digits_value(x@) == digits_value(y@)),
        (r > 0) == (digits_value(x@) > digits_value(y@)),
{
    let mut i: usize = 0;
    while i < x.len()
        invariant
            i <= x.len() == y.len(),
            all_digits(x@),
            all_digits(y@),
            x@.take(i as int) == y@.take(i as int),
        decreases x.len() - i,
    {
        if x[i] < y[i] {
            proof {
                lemma_digits_order(x@, y@, i as int);
            }
            return -1;
        }
        if y[i] < x[i] {
            proof {
                lemma_digits_order(y@, x@, i as int);
            }
            return 1;
        }
        proof {
            assert(x@.take(i + 1) =~= x@.take(i as int).push(x@[i as int]));
            assert(y@.take(i + 1) =~= y@.take(i as int).push(y@[i as int]));
        }
        i = i + 1;
    }
    assert(x@ =~= x@.take(x.len() as int));
    assert(y@ =~= y@.take(y.len() as int));
    0
}

proof fn lemma_pow10_30()
    ensures
        pow10(30) == 1_000_000_000_000_000_000_000_000_000_000,
{
    reveal_with_fuel(pow10, 31);
}

/// The number of at most thirty digits.
fn small_value(d: &Vec<char>) -> (r: u128)
    requires
        all_digits(d@),
        d.len() <= 30,
    ensures
        r == digits_value(d@),
        r < 1_000_000_000_000_000_000_000_000_000_000,
{
    let mut m: u128 = 0;
    let mut k: usize = 0;
    proof {
        assert(d@.take(0) =~= Seq::<char>::empty());
        lemma_pow10_30();
    }
    while k < d.len()
        invariant
            k <= d.len() <= 30,
            all_digits(d@),
            m == digits_value(d@.take(k as int)),
            pow10(30) == 1_000_000_000_000_000_000_000_000_000_000,
        decreases d.len() - k,
    {
        let ch = d[k];
        assert(is_digit(d@[k as int]));
        assert(ch == d@[k as int]);
        let x: u128 = (ch as u128) - 48;
        proof {
            lemma_all_digits_parts(d@, k + 1);
            lemma_digits_bound(d@.take(k + 1));
            lemma_pow10_monotone((k + 1) as nat, 30);
            assert(d@.take(k + 1).drop_last() =~= d@.take(k as int));
            assert(d@.take(k + 1).last() == ch);
        }
        m = m * 10 + x;
        k = k + 1;
    }
    proof {
        assert(d@.take(d.len() as int) =~= d@);
        lemma_digits_bound(d@);
        lemma_pow10_monotone(d.len() as nat, 30);
    }
    m
}

/// Digits without leading zeros of which there are more than thirty are
/// worth at least ten to the thirtieth.
proof fn lemma_many_digits(d: Seq<char>)
    requires
        all_digits(d),
        d.len() > 30,
        d[0] != '0',
    ensures
        digits_value(d) >= 1_000_000_000_000_000_000_000_000_000_000,
{
    lemma_digits_lead(d);
    lemma_pow10_monotone(30, (d.len() - 1) as nat);
    lemma_pow10_30();
}

/// The digits preceded by zeros up to a length.
fn pad_front(d: &Vec<char>, n: usize) -> (r: Vec<char>)
    requires
        all_digits(d@),
        d.len() <= n,
    ensures
        all_digits(r@),
        r.len() == n,
        digits_value(r@) == digits_value(d@),
{
    let mut r: Vec<char> = Vec::new();
    while r.len() < n - d.len()
        invariant
            r.len() <= n - d.len(),
            forall|j: int| 0 <= j < r.len() ==> r@[j] == '0',
        decreases n - d.len() - r.len(),
    {
        r.push('0');
    }
    let ghost zeros = r@;
    let mut j: usize = 0;
    while j < d.len()
        invariant
            j <= d.len(),
            r@ == zeros + d@.take(j as int),
        decreases d.len() - j,
    {
        r.push(d[j]);
        j = j + 1;
        assert(r@ =~= zeros + d@.take(j as int));
    }
    proof {
        assert(d@.take(d.len() as int) =~= d@);
        lemma_digits_append(zeros, d@);
        lemma_zero_digits(zeros);
        assert forall|i: int| 0 <= i < r@.len() implies is_digit(#[trigger] r@[i]) by {
            if i < zeros.len() {
                assert(r@[i] == zeros[i]);
            } else {
                assert(r@[i] == d@[i - zeros.len()]);
            }
        }
    }
    r
}

/// The difference of two equally long strings of digits, the first worth
/// at least the second.
fn sub_digits(x: &Vec<char>, y: &Vec<char>) -> (r: Vec<char>)
    requires
        x.len() == y.len(),
        all_digits(x@),
        all_digits(y@),
        digits_value(x@) >= digits_value(y@),
    ensures
        all_digits(r@),
        digits_value(r@) == digits_value(x@) - digits_value(y@),
{
    let n = x.len();
    let mut out: Vec<char> = Vec::new();
    let mut borrow: u32 = 0;
    let mut i: usize = n;
    proof {
        assert(x@.skip(n as int) =~= Seq::<char>::empty());
        assert(y@.skip(n as int) =~= Seq::<char>::empty());
    }
    while i > 0
        invariant
            i <= n == x.len() == y.len(),
            all_digits(x@),
            all_digits(y@),
            all_digits(out@),
            out.len() == n - i,
            borrow <= 1,
            digits_value(x@.skip(i as int)) - digits_value(y@.skip(i as int)) == digits_value(out@)
                - borrow * pow10(out.len() as nat),
        decreases i,
    {
        i = i - 1;
        let cx = x[i];
        let cy = y[i];
        assert(is_digit(x@[i as int]) && is_digit(y@[i as int]));
        assert(cx == x@[i as int] && cy == y@[i as int]);
        let dx: u32 = (cx as u32) - 48;
        let dy: u32 = (cy as u32) - 48;
        let (z, nb): (u32, u32) = if dx >= dy + borrow {
            (dx - dy - borrow, 0)
        } else {
            (dx + 10 - dy - borrow, 1)
        };
        let dig = digit_char(z);
        let ghost old_out = out@;
        let ghost k = out.len() as nat;
        out.insert(0, dig);
        proof {
            assert(out@ =~= seq![dig] + old_out);
            lemma_digits_append(seq![dig], old_out);
            lemma_digit_value(dig);
            assert(x@.skip(i as int) =~= seq![x@[i as int]] + x@.skip(i + 1));
            assert(y@.skip(i as int) =~= seq![y@[i as int]] + y@.skip(i + 1));
            lemma_digits_append(seq![x@[i as int]], x@.skip(i + 1));
            lemma_digits_append(seq![y@[i as int]], y@.skip(i + 1));
            lemma_digit_value(x@[i as int]);
            lemma_digit_value(y@[i as int]);
            let p = pow10(k);
            assert(pow10(k + 1) == 10 * p);
            let rx = digits_value(x@.skip(i + 1));
            let ry = digits_value(y@.skip(i + 1));
            let v = digits_value(old_out);
            assert((dx * p + rx) - (dy * p + ry) == (z * p + v) - nb * (10 * p)) by (nonlinear_arith)
                requires
                    rx - ry == v - borrow * p,
                    dx - dy - borrow == z - 10 * nb,
            ;
            assert forall|j: int| 0 <= j < out@.len() implies is_digit(#[trigger] out@[j]) by {
                if j > 0 {
                    assert(out@[j] == old_out[j - 1]);
                }
            }
        }
        borrow = nb;
    }
    proof {
        assert(x@.skip(0) =~= x@);
        assert(y@.skip(0) =~= y@);
        lemma_digits_bound(out@);
        if borrow == 1 {
            assert(false);
        }
    }
    out
}

/// Compares `lu` plus one exponent with `lt` plus another, each exponent
/// given by its sign, digits and count: negative, zero or positive as the
/// first sum is smaller, equal or larger.
fn compare_magnitudes(
    lu: usize,
    nu: bool,
    xu: &Vec<char>,
    fu: usize,
    lt: usize,
    nt: bool,
    xt: &Vec<char>,
    ft: usize,
) -> (r: i8)
    requires
        all_digits(xu@),
        all_digits(xt@),
    ensures
        ({
            let a = lu + exponent_value(nu, xu@, fu as int);
            let b = lt + exponent_value(nt, xt@, ft as int);
            &&& (r < 0) == (a < b)
            &&& (r == 0) == (a == b)
            &&& (r > 0) == (a > b)
        }),
{
    let su = strip_zeros(xu);
    let st = strip_zeros(xt);
    let cu: i128 = lu as i128 - fu as i128;
    let ct: i128 = lt as i128 - ft as i128;
    let ghost vu = digits_value(xu@);
    let ghost vt = digits_value(xt@);
    let ghost a = lu + exponent_value(nu, xu@, fu as int);
    let ghost b = lt + exponent_value(nt, xt@, ft as int);
    assert(a == (if nu { -vu } else { vu }) + cu);
    assert(b == (if nt { -vt } else { vt }) + ct);
    if su.len() <= 30 && st.len() <= 30 {
        let pu = small_value(&su) as i128;
        let pt = small_value(&st) as i128;
        let au = if nu {
            -pu
        } else {
            pu
        };
        let at = if nt {
            -pt
        } else {
            pt
        };
        let d = (au + cu) - (at + ct);
        return if d < 0 {
            -1
        } else if d == 0 {
            0
        } else {
            1
        };
    }
    proof {
        lemma_digits_bound(su@);
        lemma_digits_bound(st@);
        if su.len() > 30 {
            lemma_many_digits(su@);
        }
        if st.len() > 30 {
            lemma_many_digits(st@);
        }
        assert(vu >= 1_000_000_000_000_000_000_000_000_000_000 || vt
            >= 1_000_000_000_000_000_000_000_000_000_000);
    }
    if nu != nt {
        // The exponents' difference is at least the larger one.
        return if nt {
            1
        } else {
            -1
        };
    }
    let n = if su.len() < st.len() {
        st.len()
    } else {
        su.len()
    };
    let pu = pad_front(&su, n);
    let pt = pad_front(&st, n);
    let c = compare_digits(&pu, &pt);
    let r = if c >= 0 {
        sub_digits(&pu, &pt)
    } else {
        sub_digits(&pt, &pu)
    };
    let rs = strip_zeros(&r);
    let ghost diff = vu - vt;
    assert(digits_value(rs@) == (if c >= 0 { diff } else { -diff }));
    if rs.len() > 30 {
        proof {
            lemma_many_digits(rs@);
        }
        // The difference of the exponents outweighs the counts.
        return if (c >= 0) != nu {
            1
        } else {
            -1
        };
    }
    let m = small_value(&rs) as i128;
    let dx = if c >= 0 {
        m
    } else {
        -m
    };
    let dd = if nu {
        -dx
    } else {
        dx
    };
    let d = dd + cu - ct;
    if d < 0 {
        -1
    } else if d == 0 {
        0
    } else {
        1
    }
}

fn all_digits_in(d: &Vec<char>) -> (res: bool)
    ensures
        res == all_digits(d@),
{
    let mut i: usize = 0;
    while i < d.len()
        invariant
            i <= d.len(),
            forall|j: int| 0 <= j < i ==> is_digit(#[trigger] d@[j]),
        decreases d.len() - i,
    {
        if !('0' <= d[i] && d[i] <= '9') {
            assert(!is_digit(d@[i as int]));
            return false;
        }
        i = i + 1;
    }
    true
}

fn commas_to_points(w: &Vec<char>) -> (u: Vec<char>)
    ensures
        u@ == comma_to_dot(w@),
{
    let mut u: Vec<char> = Vec::new();
    let mut i: usize = 0;
    while i < w.len()
        invariant
            i <= w.len(),
            u@ == comma_to_dot(w@.take(i as int)),
        decreases w.len() - i,
    {
        let c = if w[i] == ',' {
            '.'
        } else {
            w[i]
        };
        u.push(c);
        i = i + 1;
        assert(u@ =~= comma_to_dot(w@.take(i as int)));
    }
    assert(w@.take(w.len() as int) =~= w@);
    u
}

/// The sign, the digits before the point, the digits after it and the text
/// after the exponent mark.
fn number_parts(w: &Vec<char>) -> (res: (bool, Vec<char>, Vec<char>, Option<Vec<char>>))
    ensures
        ({
            let (neg, whole, frac, exp) = number_split(w@);
            &&& res.0 == neg
            &&& res.1@ == whole
            &&& res.2@ == frac
            &&& match res.3 {
                Some(e) => exp == Some(e@),
                None => exp is None,
            }
        }),
{
    let u = commas_to_points(w);
    let (neg, start) = if u.len() > 0 && u[0] == '-' {
        (true, 1)
    } else if u.len() > 0 && u[0] == '+' {
        (false, 1)
    } else {
        (false, 0)
    };
    let body = slice(&u, start, u.len());
    assert(strip_sign(u@) == (neg, body@)) by {
        if start == 1 {
            assert(body@ =~= u@.drop_first());
        } else {
            assert(body@ =~= u@);
        }
    }
    let lowered = lower_chars(&body);
    assert(lowered@.skip(0) =~= lowered@);
    let ie = find_char(&lowered, 'e', 0);
    let mant = slice(&body, 0, ie);
    assert(mant@ =~= body@.take(ie as int));
    let exp = if ie < body.len() {
        let e = slice(&body, ie + 1, body.len());
        assert(e@ =~= body@.skip(ie + 1));
        Some(e)
    } else {
        None
    };
    assert(mant@.skip(0) =~= mant@);
    let p = find_char(&mant, '.', 0);
    let whole = slice(&mant, 0, p);
    assert(whole@ =~= mant@.take(p as int));
    let frac = if p < mant.len() {
        let f = slice(&mant, p + 1, mant.len());
        assert(f@ =~= mant@.skip(p + 1));
        f
    } else {
        Vec::new()
    };
    (neg, whole, frac, exp)
}

/// Reads an exponent: its sign and digits.
fn parse_exponent(e: &Vec<char>) -> (res: Option<(bool, Vec<char>)>)
    ensures
        match res {
            Some((neg, d)) => exponent_of(e@) == Some(exponent_value(neg, d@, 0)) && all_digits(d@)
                && d.len() > 0,
            None => exponent_of(e@) is None,
        },
{
    let (neg, start) = if e.len() > 0 && e[0] == '-' {
        (true, 1)
    } else if e.len() > 0 && e[0] == '+' {
        (false, 1)
    } else {
        (false, 0)
    };
    let d = slice(e, start, e.len());
    assert(strip_sign(e@) == (neg, d@)) by {
        if start == 1 {
            assert(d@ =~= e@.drop_first());
        } else {
            assert(d@ =~= e@);
        }
    }
    if d.len() == 0 || !all_digits_in(&d) {
        return None;
    }
    Some((neg, d))
}

/// A size as read, finite ones with their digits and exponent in full.
#[derive(Debug, PartialEq, Eq)]
pub enum ParsedSize {
    Finite { negative: bool, digits: Vec<char>, exp_negative: bool, exp_digits: Vec<char>, less: usize },
    Infinite(bool),
    NotANumber,
}

/// The number a size as read stands for.
pub open spec fn parsed_value(p: ParsedSize) -> SizeValue {
    match p {
        ParsedSize::Finite { negative, digits, exp_negative, exp_digits, less } => SizeValue::Finite(
            negative,
            digits_value(digits@),
            exponent_value(exp_negative, exp_digits@, less as int),
        ),
        ParsedSize::Infinite(neg) => SizeValue::Infinite(neg),
        ParsedSize::NotANumber => SizeValue::NotANumber,
    }
}

pub open spec fn parsed_wf(p: ParsedSize) -> bool {
    match p {
        ParsedSize::Finite { digits, exp_digits, .. } => all_digits(digits@) && all_digits(
            exp_digits@,
        ) && exp_digits.len() > 0,
        _ => true,
    }
}

/// Reads the special words for infinity and not-a-number.
fn special_value(w: &Vec<char>) -> (res: Option<ParsedSize>)
    ensures
        match res {
            Some(p) => special_number(w@) == Some(parsed_value(p)) && parsed_wf(p),
            None => special_number(w@) is None,
        },
{
    let u = commas_to_points(w);
    let (neg, start) = if u.len() > 0 && u[0] == '-' {
        (true, 1)
    } else if u.len() > 0 && u[0] == '+' {
        (false, 1)
    } else {
        (false, 0)
    };
    let body = slice(&u, start, u.len());
    assert(strip_sign(u@) == (neg, body@)) by {
        if start == 1 {
            assert(body@ =~= u@.drop_first());
        } else {
            assert(body@ =~= u@);
        }
    }
    let l = lower_chars(&body);
    if is_text(&l, "inf") || is_text(&l, "infinity") {
        Some(ParsedSize::Infinite(neg))
    } else if is_text(&l, "nan") {
        Some(ParsedSize::NotANumber)
    } else {
        None
    }
}

/// Reads the number a size is written with.
pub fn parse_size_number(w: &Vec<char>) -> (res: Option<ParsedSize>)
    ensures
        match res {
            Some(p) => size_number(w@) == Some(parsed_value(p)) && parsed_wf(p),
            None => size_number(w@) is None,
        },
{
    match special_value(w) {
        Some(p) => return Some(p),
        None => {},
    }
    let (neg, whole, frac, exp) = number_parts(w);
    if !all_digits_in(&whole) || !all_digits_in(&frac) {
        return None;
    }
    if whole.len() == 0 && frac.len() == 0 {
        return None;
    }
    let (exp_negative, exp_digits) = match exp {
        Some(e) => match parse_exponent(&e) {
            Some(x) => x,
            None => return None,
        },
        None => {
            let mut zero: Vec<char> = Vec::new();
            zero.push('0');
            proof {
                assert(zero@ =~= seq!['0']);
                lemma_digit_value('0');
            }
            (false, zero)
        },
    };
    let mut digits = whole.clone();
    let mut j: usize = 0;
    while j < frac.len()
        invariant
            j <= frac.len(),
            digits@ == whole@ + frac@.take(j as int),
        decreases frac.len() - j,
    {
        digits.push(frac[j]);
        j = j + 1;
        assert(digits@ =~= whole@ + frac@.take(j as int));
    }
    assert(frac@.take(frac.len() as int) =~= frac@);
    assert(all_digits(digits@)) by {
        assert forall|k: int| 0 <= k < digits@.len() implies is_digit(#[trigger] digits@[k]) by {
            if k < whole.len() {
                assert(digits@[k] == whole@[k]);
            } else {
                assert(digits@[k] == frac@[k - whole.len()]);
            }
        }
    }
    Some(ParsedSize::Finite { negative: neg, digits, exp_negative, exp_digits, less: frac.len() })
}

/// Reads a unit: the power of 1024 it stands for.
pub fn parse_unit(u: &Vec<char>) -> (res: Option<u32>)
    ensures
        match res {
            Some(k) => unit_power(u@) == Some(k as nat) && k <= 4,
            None => unit_power(u@) is None,
        },
{
    let l = lower_chars(u);
    if is_text(&l, "b") || is_text(&l, "byte") || is_text(&l, "bytes") {
        Some(0)
    } else if is_text(&l, "kb") || is_text(&l, "kib") {
        Some(1)
    } else if is_text(&l, "mb") || is_text(&l, "mib") {
        Some(2)
    } else if is_text(&l, "gb") || is_text(&l, "gib") {
        Some(3)
    } else if is_text(&l, "tb") || is_text(&l, "tib") {
        Some(4)
    } else {
        None
    }
}

/// Reads a size: the number of bytes it stands for, a finite one with the
/// digits of its integer without leading zeros.
pub fn parse_size_to_bytes(value: &str) -> (res: Option<ParsedSize>)
    ensures
        match res {
            Some(p) => size_bytes(value@) == Some(parsed_value(p)) && parsed_wf(p) && (p matches
                ParsedSize::Finite { digits, .. } ==> digits.len() == 0 || digits@[0] != '0'),
            None => size_bytes(value@) is None,
        },
{
    let v = chars_of(value);
    assert(v@.skip(0) =~= v@);
    let first = match next_word(&v, 0) {
        None => return None,
        Some(p) => p,
    };
    let (a, b) = first;
    let number = slice(&v, a, b);
    let ghost ws = words(v@);
    assert(ws[0] == number@);
    let parsed = match parse_size_number(&number) {
        None => return None,
        Some(x) => x,
    };
    let k = match next_word(&v, b) {
        None => {
            assert(ws.len() == 1);
            let unit = chars_of("B");
            parse_unit(&unit)
        },
        Some((c, d)) => {
            let unit = slice(&v, c, d);
            assert(ws.len() > 1 && ws[1] == unit@);
            parse_unit(&unit)
        },
    };
    let k = match k {
        None => return None,
        Some(k) => k,
    };
    match parsed {
        ParsedSize::Finite { negative, digits, exp_negative, exp_digits, less } => {
            let mut scaled = digits.clone();
            let mut i: u32 = 0;
            while i < k
                invariant
                    i <= k <= 4,
                    all_digits(digits@),
                    all_digits(scaled@),
                    digits_value(scaled@) == digits_value(digits@) * pow1024(i as nat),
                decreases k - i,
            {
                scaled = times_small(&scaled, 1024);
                proof {
                    assert(pow1024((i + 1) as nat) == 1024 * pow1024(i as nat));
                    let v = digits_value(digits@);
                    let p = pow1024(i as nat);
                    assert(1024 * (v * p) == v * (1024 * p)) by (nonlinear_arith);
                }
                i = i + 1;
            }
            let stripped = strip_zeros(&scaled);
            Some(ParsedSize::Finite { negative, digits: stripped, exp_negative, exp_digits, less })
        },
        other => Some(other),
    }
}

/// Whether `du` times ten to one exponent is larger than `dt` times ten to
/// another, for digits without leading zeros that are not empty.
fn exceeds(
    du: &Vec<char>,
    nu: bool,
    xu: &Vec<char>,
    fu: usize,
    dt: &Vec<char>,
    nt: bool,
    xt: &Vec<char>,
    ft: usize,
) -> (res: bool)
    requires
        all_digits(du@),
        all_digits(dt@),
        all_digits(xu@),
        all_digits(xt@),
        du.len() > 0 && du@[0] != '0',
        dt.len() > 0 && dt@[0] != '0',
    ensures
        res == scaled_greater(
            digits_value(du@),
            exponent_value(nu, xu@, fu as int),
            digits_value(dt@),
            exponent_value(nt, xt@, ft as int),
        ),
{
    let lu = du.len();
    let lt = dt.len();
    let ghost eu = exponent_value(nu, xu@, fu as int);
    let ghost et = exponent_value(nt, xt@, ft as int);
    let ghost m = if eu < et {
        eu
    } else {
        et
    };
    let ghost a = (eu - m) as nat;
    let ghost b = (et - m) as nat;
    let ghost vu = digits_value(du@);
    let ghost vt = digits_value(dt@);
    let ghost pa = pow10(a);
    let ghost pb = pow10(b);
    let c = compare_magnitudes(lu, nu, xu, fu, lt, nt, xt, ft);
    proof {
        // Each number lies between consecutive powers of ten.
        lemma_digits_lead(du@);
        lemma_digits_lead(dt@);
        lemma_digits_bound(du@);
        lemma_digits_bound(dt@);
        lemma_pow_pos(a);
        lemma_pow_pos(b);
        let plu = pow10((lu - 1) as nat);
        let plt = pow10((lt - 1) as nat);
        assert(pow10(lu as nat) == 10 * plu);
        assert(pow10(lt as nat) == 10 * plt);
        lemma_pow10_add((lu - 1) as nat, a);
        lemma_pow10_add((lt - 1) as nat, b);
        assert(plu * pa <= vu * pa < 10 * (plu * pa)) by (nonlinear_arith)
            requires
                plu <= vu < 10 * plu,
                pa >= 1,
        ;
        assert(plt * pb <= vt * pb < 10 * (plt * pb)) by (nonlinear_arith)
            requires
                plt <= vt < 10 * plt,
                pb >= 1,
        ;
        let ua = pow10((lu - 1 + a) as nat);
        let tb = pow10((lt - 1 + b) as nat);
        assert(ua <= vu * pa < 10 * ua);
        assert(tb <= vt * pb < 10 * tb);
        assert(pow10((lu + a) as nat) == 10 * ua);
        assert(pow10((lt + b) as nat) == 10 * tb);
        if lu + a > lt + b {
            lemma_pow10_monotone((lt + b) as nat, (lu - 1 + a) as nat);
            assert(vu * pa > vt * pb);
        }
        if lu + a < lt + b {
            lemma_pow10_monotone((lu + a) as nat, (lt - 1 + b) as nat);
            assert(vu * pa < vt * pb);
        }
    }
    if c > 0 {
        return true;
    }
    if c < 0 {
        return false;
    }
    if lu < lt {
        // Then `b` is zero and the first padded to the second's length.
        let x = with_zeros(du, lt - lu);
        let r = compare_digits(&x, dt);
        proof {
            assert(a == lt - lu && b == 0);
            assert(digits_value(x@) == vu * pa);
            assert(pb == 1);
            assert(vt * pb == vt) by (nonlinear_arith)
                requires
                    pb == 1,
            ;
        }
        r > 0
    } else if lt < lu {
        let y = with_zeros(dt, lu - lt);
        let r = compare_digits(du, &y);
        proof {
            assert(b == lu - lt && a == 0);
            assert(digits_value(y@) == vt * pb);
            assert(pa == 1);
            assert(vu * pa == vu) by (nonlinear_arith)
                requires
                    pa == 1,
            ;
        }
        r > 0
    } else {
        let r = compare_digits(du, dt);
        proof {
            assert(a == 0 && b == 0);
            assert(pa == 1 && pb == 1);
            assert(vu * pa == vu) by (nonlinear_arith)
                requires
                    pa == 1,
            ;
            assert(vt * pb == vt) by (nonlinear_arith)
                requires
                    pb == 1,
            ;
        }
        r > 0
    }
}

/// A decimal of the given digits and exponent.
fn decimal_of(digits: &Vec<char>, negative: bool, exp_digits: &Vec<char>, less: usize) -> (res: Decimal)
    ensures
        res.digits@ == digits@,
        res.exponent.digits@ == exp_digits@,
        res.exponent.negative == negative,
        res.exponent.less == less,
{
    Decimal {
        digits: string_of(digits),
        exponent: Exponent { negative, digits: string_of(exp_digits), less },
    }
}

/// A decimal of one digit and exponent zero.
fn digit_decimal(k: u32) -> (res: Decimal)
    requires
        k < 10,
    ensures
        res.wf(),
        res.parts() == (k as int, 0int),
{
    let d = digit_char(k);
    let mut v: Vec<char> = Vec::new();
    v.push(d);
    let mut z: Vec<char> = Vec::new();
    z.push('0');
    proof {
        assert(v@ =~= seq![d]);
        assert(z@ =~= seq!['0']);
        lemma_digit_value(d);
        lemma_digit_value('0');
    }
    decimal_of(&v, false, &z, 0)
}

/// The share of the total that is used, clamped to `0..=1`, when both sizes
/// can be read and the total is positive.
pub fn used_share_of(used: &str, total: &str) -> (res: Option<Share>)
    ensures
        match res {
            Some(s) => used_share(used@, total@) == Some(share_parts(s)) && (s matches Share::Ratio(f)
                ==> f.wf()),
            None => used_share(used@, total@) is None,
        },
{
    let u = match parse_size_to_bytes(used) {
        None => return None,
        Some(x) => x,
    };
    let t = match parse_size_to_bytes(total) {
        None => return None,
        Some(x) => x,
    };
    match t {
        ParsedSize::NotANumber => None,
        ParsedSize::Infinite(true) => None,
        ParsedSize::Infinite(false) => match u {
            ParsedSize::Finite { .. } => Some(
                Share::Ratio(Fraction { numerator: digit_decimal(0), denominator: digit_decimal(1) }),
            ),
            _ => Some(Share::NotANumber),
        },
        ParsedSize::Finite { negative: nt, digits: dt, exp_negative: ent, exp_digits: xt, less: ft } => {
            if nt || dt.len() == 0 {
                proof {
                    if dt.len() == 0 {
                        assert(dt@ =~= Seq::<char>::empty());
                    }
                }
                return None;
            }
            proof {
                lemma_digits_lead(dt@);
                lemma_pow_pos((dt.len() - 1) as nat);
            }
            let denominator = decimal_of(&dt, ent, &xt, ft);
            match u {
                ParsedSize::NotANumber => Some(Share::NotANumber),
                ParsedSize::Infinite(false) => Some(
                    Share::Ratio(Fraction { numerator: decimal_of(&dt, ent, &xt, ft), denominator }),
                ),
                ParsedSize::Infinite(true) => {
                    let zero = digit_decimal(0);
                    Some(Share::Ratio(Fraction { numerator: zero, denominator }))
                },
                ParsedSize::Finite { negative: nu, digits: du, exp_negative: enu, exp_digits: xu, less: fu } => {
                    if nu || du.len() == 0 {
                        proof {
                            if du.len() == 0 {
                                assert(du@ =~= Seq::<char>::empty());
                            }
                        }
                        let zero = digit_decimal(0);
                        return Some(Share::Ratio(Fraction { numerator: zero, denominator }));
                    }
                    proof {
                        lemma_digits_lead(du@);
                        lemma_pow_pos((du.len() - 1) as nat);
                    }
                    if exceeds(&du, enu, &xu, fu, &dt, ent, &xt, ft) {
                        Some(
                            Share::Ratio(Fraction { numerator: decimal_of(&dt, ent, &xt, ft), denominator }),
                        )
                    } else {
                        Some(
                            Share::Ratio(Fraction { numerator: decimal_of(&du, enu, &xu, fu), denominator }),
                        )
                    }
                },
            }
        },
    }
}

// ---------------------------------------------------------------------------
// Laws of units
// ---------------------------------------------------------------------------

/// Law: each unit stands for its power of 1024, whatever the ASCII case it
/// is written in: bytes for `b`, `byte` and `bytes`; 1024 bytes for `kb` and
/// `kib`; 1024^2 for `mb` and `mib`; 1024^3 for `gb` and `gib`; 1024^4 for
/// `tb` and `tib`; no other word is a unit.
pub proof fn lemma_unit_powers(u: Seq<char>)
    ensures
        lower(u) == "b"@ || lower(u) == "byte"@ || lower(u) == "bytes"@ ==> unit_power(u) == Some(0nat),
        lower(u) == "kb"@ || lower(u) == "kib"@ ==> unit_power(u) == Some(1nat),
        lower(u) == "mb"@ || lower(u) == "mib"@ ==> unit_power(u) == Some(2nat),
        lower(u) == "gb"@ || lower(u) == "gib"@ ==> unit_power(u) == Some(3nat),
        lower(u) == "tb"@ || lower(u) == "tib"@ ==> unit_power(u) == Some(4nat),
        unit_power(u) is Some ==> lower(u) == "b"@ || lower(u) == "byte"@ || lower(u) == "bytes"@
            || lower(u) == "kb"@ || lower(u) == "kib"@ || lower(u) == "mb"@ || lower(u) == "mib"@
            || lower(u) == "gb"@ || lower(u) == "gib"@ || lower(u) == "tb"@ || lower(u) == "tib"@,
        pow1024(0) == 1 && pow1024(1) == 1024 && pow1024(2) == 1_048_576 && pow1024(3)
            == 1_073_741_824 && pow1024(4) == 1_099_511_627_776,
{
    reveal_strlit("b");
    reveal_strlit("byte");
    reveal_strlit("bytes");
    reveal_strlit("kb");
    reveal_strlit("kib");
    reveal_strlit("mb");
    reveal_strlit("mib");
    reveal_strlit("gb");
    reveal_strlit("gib");
    reveal_strlit("tb");
    reveal_strlit("tib");
    assert("b"@.len() == 1 && "b"@[0] == 'b');
    assert("byte"@.len() == 4 && "byte"@[0] == 'b');
    assert("bytes"@.len() == 5 && "bytes"@[0] == 'b');
    assert("kb"@.len() == 2 && "kb"@[0] == 'k');
    assert("kib"@.len() == 3 && "kib"@[0] == 'k');
    assert("mb"@.len() == 2 && "mb"@[0] == 'm');
    assert("mib"@.len() == 3 && "mib"@[0] == 'm');
    assert("gb"@.len() == 2 && "gb"@[0] == 'g');
    assert("gib"@.len() == 3 && "gib"@[0] == 'g');
    assert("tb"@.len() == 2 && "tb"@[0] == 't');
    assert("tib"@.len() == 3 && "tib"@[0] == 't');
    let l = lower(u);
    if l.len() > 0 {
        assert(l == "b"@ || l == "byte"@ || l == "bytes"@ ==> l[0] == 'b');
    }
    reveal_with_fuel(pow1024, 5);
}

/// The bytes a finite number stands for in a unit of `factor` bytes.
pub open spec fn scaled_by(n: Option<SizeValue>, factor: int) -> Option<SizeValue> {
    match n {
        Some(SizeValue::Finite(neg, m, e)) => Some(SizeValue::Finite(neg, m * factor, e)),
        other => other,
    }
}

/// Law: a size is its number times the bytes its unit stands for (a number
/// without a unit counts bytes): a kilobyte is 1024 bytes, and each larger
/// unit 1024 times the one before, so a terabyte is 1024 gigabytes.
pub proof fn lemma_size_units(value: Seq<char>)
    requires
        words(value).len() > 0,
    ensures
        ({
            let ws = words(value);
            let n = size_number(ws[0]);
            let u = if ws.len() > 1 { lower(ws[1]) } else { "b"@ };
            &&& n is None ==> size_bytes(value) is None
            &&& u == "b"@ || u == "byte"@ || u == "bytes"@ ==> size_bytes(value) == scaled_by(n, 1)
            &&& u == "kb"@ || u == "kib"@ ==> size_bytes(value) == scaled_by(n, 1024)
            &&& u == "mb"@ || u == "mib"@ ==> size_bytes(value) == scaled_by(n, 1_048_576)
            &&& u == "gb"@ || u == "gib"@ ==> size_bytes(value) == scaled_by(n, 1_073_741_824)
            &&& u == "tb"@ || u == "tib"@ ==> size_bytes(value) == scaled_by(n, 1_099_511_627_776)
        }),
{
    let ws = words(value);
    let unit = if ws.len() > 1 { ws[1] } else { "B"@ };
    lemma_unit_powers(unit);
    reveal_strlit("B");
    reveal_strlit("b");
    assert(lower("B"@) =~= "b"@);
}

} // verus!
