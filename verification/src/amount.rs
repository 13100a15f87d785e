//! Decimal amounts: parsed from text, negated for income, printed in shortest form.

use crate::text::chars_of;
use vstd::prelude::*;
use vstd::string::*;

verus! {

/// A signed decimal number: a sign, the digits before the point and the digits
/// after it.
#[derive(Clone, Debug)]
pub struct Amount {
    negative: bool,
    integer: String,
    fraction: String,
}

/// Mathematical view of an [`Amount`].
pub struct Decimal {
    pub negative: bool,
    pub integer: Seq<char>,
    pub fraction: Seq<char>,
}

pub open spec fn is_digit(c: char) -> bool {
    '0' <= c <= '9'
}

/// Every character of `s` from `lo` up to `hi` is a decimal digit.
pub open spec fn digits_in(s: Seq<char>, lo: int, hi: int) -> bool {
    forall|j: int| lo <= j < hi ==> is_digit(#[trigger] s[j])
}

/// Length of the sign that `s` starts with: 1 for `+` or `-`, else 0.
pub open spec fn sign_len(s: Seq<char>) -> int {
    if s.len() > 0 && (s[0] == '-' || s[0] == '+') {
        1
    } else {
        0
    }
}

/// Index of the first `.` at or after `i` (the length of `s` when there is none).
pub open spec fn find_point(s: Seq<char>, i: int) -> int
    decreases s.len() - i,
{
    if 0 <= i < s.len() && s[i] != '.' {
        find_point(s, i + 1)
    } else {
        i
    }
}

/// Index of the first character in `i..hi` that is not `0` (`hi` when all are).
pub open spec fn skip_zeros(s: Seq<char>, i: int, hi: int) -> int
    decreases hi - i,
{
    if 0 <= i < hi <= s.len() && s[i] == '0' {
        skip_zeros(s, i + 1, hi)
    } else {
        i
    }
}

/// End of `lo..hi` once its trailing zeros are cut off.
pub open spec fn trim_zeros(s: Seq<char>, lo: int, hi: int) -> int
    decreases hi - lo,
{
    if 0 <= lo < hi <= s.len() && s[hi - 1] == '0' {
        trim_zeros(s, lo, hi - 1)
    } else {
        hi
    }
}

/// The number that the text `s` writes, or `None` where `s` is not of the form
/// `[+|-] digits [. digits]` with at least one digit. Leading zeros of the integer
/// part and trailing zeros of the fraction are not kept.
pub open spec fn parse_decimal(s: Seq<char>) -> Option<Decimal> {
    let off = sign_len(s);
    let point = find_point(s, off);
    let frac_lo = if point < s.len() {
        point + 1
    } else {
        s.len() as int
    };
    if digits_in(s, off, point) && digits_in(s, frac_lo, s.len() as int) && (point - off) + (
    s.len() - frac_lo) > 0 {
        let int_lo = skip_zeros(s, off, point);
        Some(
            Decimal {
                negative: off == 1 && s[0] == '-',
                integer: if int_lo == point {
                    seq!['0']
                } else {
                    s.subrange(int_lo, point)
                },
                fraction: s.subrange(frac_lo, trim_zeros(s, frac_lo, s.len() as int)),
            },
        )
    } else {
        None
    }
}

impl Decimal {
    /// Digits only, an integer part that is `0` or starts with another digit, and
    /// a fraction that does not end in `0`.
    pub open spec fn wf(self) -> bool {
        &&& self.integer.len() > 0
        &&& digits_in(self.integer, 0, self.integer.len() as int)
        &&& (self.integer.len() > 1 ==> self.integer[0] != '0')
        &&& digits_in(self.fraction, 0, self.fraction.len() as int)
        &&& (self.fraction.len() > 0 ==> self.fraction.last() != '0')
    }

    /// The same magnitude with the opposite sign.
    pub open spec fn negated(self) -> Decimal {
        Decimal { negative: !self.negative, integer: self.integer, fraction: self.fraction }
    }

    /// The magnitude of the number, counted in units of the last place of its
    /// fraction.
    pub open spec fn units(self) -> nat {
        digits_value(self.integer + self.fraction)
    }

    /// The text of the number: `-` if negative, the integer part, and the
    /// fraction after a point if there is one.
    pub open spec fn text(self) -> Seq<char> {
        (if self.negative {
            seq!['-']
        } else {
            Seq::<char>::empty()
        }) + self.integer + (if self.fraction.len() > 0 {
            seq!['.'] + self.fraction
        } else {
            Seq::<char>::empty()
        })
    }
}

/// Ten to the power of `n`.
pub open spec fn pow10(n: nat) -> nat
    decreases n,
{
    if n == 0 {
        1
    } else {
        10 * pow10((n - 1) as nat)
    }
}

/// The number that a run of digits writes.
pub open spec fn digits_value(s: Seq<char>) -> nat
    decreases s.len(),
{
    if s.len() == 0 {
        0
    } else {
        digits_value(s.drop_last()) * 10 + (s.last() as nat - '0' as nat) as nat
    }
}

/// The digits that a text gives a number, sign and point left out, or `None`
/// where the text is no decimal number.
pub open spec fn written_digits(s: Seq<char>) -> Option<Seq<char>> {
    let off = sign_len(s);
    let point = find_point(s, off);
    if parse_decimal(s) is None {
        None
    } else if point < s.len() {
        Some(s.subrange(off, point) + s.subrange(point + 1, s.len() as int))
    } else {
        Some(s.subrange(off, point))
    }
}

/// Number of zeros at the end of the fraction that a text writes.
pub open spec fn dropped_zeros(s: Seq<char>) -> nat {
    let point = find_point(s, sign_len(s));
    if point < s.len() {
        (s.len() - trim_zeros(s, point + 1, s.len() as int)) as nat
    } else {
        0
    }
}

impl View for Amount {
    type V = Decimal;

    closed spec fn view(&self) -> Decimal {
        Decimal { negative: self.negative, integer: self.integer@, fraction: self.fraction@ }
    }
}

proof fn lemma_find_point_bounds(s: Seq<char>, i: int)
    requires
        0 <= i <= s.len(),
    ensures
        i <= find_point(s, i) <= s.len(),
    decreases s.len() - i,
{
    if i < s.len() && s[i] != '.' {
        lemma_find_point_bounds(s, i + 1);
    }
}

proof fn lemma_skip_zeros_bounds(s: Seq<char>, i: int, hi: int)
    requires
        0 <= i <= hi <= s.len(),
    ensures
        i <= skip_zeros(s, i, hi) <= hi,
        skip_zeros(s, i, hi) < hi ==> s[skip_zeros(s, i, hi)] != '0',
    decreases hi - i,
{
    if i < hi && s[i] == '0' {
        lemma_skip_zeros_bounds(s, i + 1, hi);
    }
}

proof fn lemma_trim_zeros_bounds(s: Seq<char>, lo: int, hi: int)
    requires
        0 <= lo <= hi <= s.len(),
    ensures
        lo <= trim_zeros(s, lo, hi) <= hi,
        lo < trim_zeros(s, lo, hi) ==> s[trim_zeros(s, lo, hi) - 1] != '0',
    decreases hi - lo,
{
    if lo < hi && s[hi - 1] == '0' {
        lemma_trim_zeros_bounds(s, lo, hi - 1);
    }
}

/// Whatever text parses, parses to a well-formed number.
pub proof fn lemma_parse_decimal_wf(s: Seq<char>)
    ensures
        parse_decimal(s) matches Some(d) ==> d.wf(),
{
    let off = sign_len(s);
    lemma_find_point_bounds(s, off);
    let point = find_point(s, off);
    let frac_lo = if point < s.len() {
        point + 1
    } else {
        s.len() as int
    };
    lemma_skip_zeros_bounds(s, off, point);
    lemma_trim_zeros_bounds(s, frac_lo, s.len() as int);
    if parse_decimal(s) is Some {
        let d = parse_decimal(s)->0;
        let int_lo = skip_zeros(s, off, point);
        let frac_hi = trim_zeros(s, frac_lo, s.len() as int);
        assert forall|j: int| 0 <= j < d.integer.len() implies is_digit(#[trigger] d.integer[j]) by {
            if int_lo < point {
                assert(d.integer[j] == s[int_lo + j]);
            }
        }
        assert forall|j: int| 0 <= j < d.fraction.len() implies is_digit(
            #[trigger] d.fraction[j],
        ) by {
            assert(d.fraction[j] == s[frac_lo + j]);
        }
    }
}

/// The number that two runs of digits write one after the other.
proof fn lemma_digits_value_concat(a: Seq<char>, b: Seq<char>)
    ensures
        digits_value(a + b) == digits_value(a) * pow10(b.len()) + digits_value(b),
    decreases b.len(),
{
    if b.len() == 0 {
        assert(a + b =~= a);
        assert(pow10(0) == 1);
        assert(digits_value(b) == 0);
        assert(digits_value(a) * 1 == digits_value(a));
    } else {
        let front = b.drop_last();
        assert((a + b).drop_last() =~= a + front);
        assert((a + b).last() == b.last());
        lemma_digits_value_concat(a, front);
        let x = digits_value(a);
        let p = pow10(front.len());
        let unit = (b.last() as nat - '0' as nat) as nat;
        assert(pow10(b.len()) == 10 * p);
        assert(digits_value(a + b) == digits_value(a + front) * 10 + unit);
        assert(digits_value(b) == digits_value(front) * 10 + unit);
        assert((x * p + digits_value(front)) * 10 == x * (10 * p) + digits_value(front) * 10)
            by (nonlinear_arith);
    }
}

/// A run of zeros writes zero.
proof fn lemma_zeros_value(s: Seq<char>)
    requires
        forall|j: int| 0 <= j < s.len() ==> s[j] == '0',
    ensures
        digits_value(s) == 0,
    decreases s.len(),
{
    if s.len() > 0 {
        lemma_zeros_value(s.drop_last());
    }
}

/// `skip_zeros` passes over zeros only.
proof fn lemma_skipped_are_zeros(s: Seq<char>, i: int, hi: int)
    requires
        0 <= i <= hi <= s.len(),
    ensures
        forall|j: int| i <= j < skip_zeros(s, i, hi) ==> s[j] == '0',
    decreases hi - i,
{
    if i < hi && s[i] == '0' {
        lemma_skipped_are_zeros(s, i + 1, hi);
    }
}

/// `trim_zeros` cuts off zeros only.
proof fn lemma_trimmed_are_zeros(s: Seq<char>, lo: int, hi: int)
    requires
        0 <= lo <= hi <= s.len(),
    ensures
        forall|j: int| trim_zeros(s, lo, hi) <= j < hi ==> s[j] == '0',
    decreases hi - lo,
{
    if lo < hi && s[hi - 1] == '0' {
        lemma_trimmed_are_zeros(s, lo, hi - 1);
    }
}

/// Reading a text keeps its number: the digits that the text writes are worth the
/// units of the number that is read, times ten for each zero dropped from the
/// end of the fraction; the sign is negative exactly when the text starts with
/// `-`.
pub proof fn lemma_parse_decimal_value(s: Seq<char>)
    requires
        parse_decimal(s) is Some,
    ensures
        written_digits(s) is Some,
        digits_value(written_digits(s)->0) == parse_decimal(s)->0.units() * pow10(
            dropped_zeros(s),
        ),
        parse_decimal(s)->0.negative == (s.len() > 0 && s[0] == '-'),
{
    let d = parse_decimal(s)->0;
    let off = sign_len(s);
    lemma_find_point_bounds(s, off);
    let point = find_point(s, off);
    let len = s.len() as int;
    let frac_lo = if point < len {
        point + 1
    } else {
        len
    };
    lemma_skip_zeros_bounds(s, off, point);
    lemma_skipped_are_zeros(s, off, point);
    lemma_trim_zeros_bounds(s, frac_lo, len);
    lemma_trimmed_are_zeros(s, frac_lo, len);
    let int_lo = skip_zeros(s, off, point);
    let frac_hi = trim_zeros(s, frac_lo, len);
    let lead = s.subrange(off, int_lo);
    let whole = s.subrange(int_lo, point);
    let frac = s.subrange(frac_lo, frac_hi);
    let tail = s.subrange(frac_hi, len);
    let written = written_digits(s)->0;
    assert(written =~= lead + (whole + frac + tail));
    assert(dropped_zeros(s) == tail.len());
    lemma_zeros_value(lead);
    lemma_zeros_value(tail);
    lemma_digits_value_concat(lead, whole + frac + tail);
    lemma_digits_value_concat(whole + frac, tail);
    assert(digits_value(written) == digits_value(whole + frac) * pow10(tail.len())) by {
        assert(0 * pow10((whole + frac + tail).len()) == 0) by (nonlinear_arith);
    }
    if int_lo == point {
        assert(whole + frac =~= frac);
        lemma_digits_value_concat(seq!['0'], frac);
        lemma_zeros_value(seq!['0']);
        assert(0 * pow10(frac.len()) == 0) by (nonlinear_arith);
        assert(d.integer + d.fraction == seq!['0'] + frac);
    } else {
        assert(d.integer + d.fraction == whole + frac);
    }
}

/// Negating twice gives the number back, and the text of a negated number differs
/// from that of the number by the leading `-` alone.
pub proof fn lemma_negated(d: Decimal)
    ensures
        d.negated().negated() == d,
        d.negated().wf() == d.wf(),
        !d.negative ==> d.negated().text() == seq!['-'] + d.text(),
        d.negative ==> d.text() == seq!['-'] + d.negated().text(),
{
    let tail = if d.fraction.len() > 0 {
        seq!['.'] + d.fraction
    } else {
        Seq::<char>::empty()
    };
    assert(Seq::<char>::empty() + d.integer + tail =~= d.integer + tail);
    assert(seq!['-'] + d.integer + tail =~= seq!['-'] + (d.integer + tail));
}

impl Default for Amount {
    /// The number zero.
    fn default() -> (r: Amount)
        ensures
            r@ == Amount::zero_value(),
            r.wf(),
    {
        Amount::zero()
    }
}

impl Amount {
    /// The invariant of the representation.
    pub open spec fn wf(&self) -> bool {
        self@.wf()
    }

    /// The view of zero.
    pub open spec fn zero_value() -> Decimal {
        Decimal { negative: false, integer: seq!['0'], fraction: Seq::<char>::empty() }
    }

    /// The number zero.
    pub fn zero() -> (r: Amount)
        ensures
            r@ == Amount::zero_value(),
            r.wf(),
    {
        proof {
            reveal_strlit("0");
            reveal_strlit("");
        }
        let r = Amount { negative: false, integer: "0".to_owned(), fraction: "".to_owned() };
        assert(r.integer@ =~= seq!['0']);
        assert(r.fraction@ =~= Seq::<char>::empty());
        r
    }

    /// Reads a decimal number; `None` where the text is not one.
    pub fn parse(s: &str) -> (r: Option<Amount>)
        ensures
            match r {
                Some(a) => parse_decimal(s@) == Some(a@) && a.wf(),
                None => parse_decimal(s@) is None,
            },
    {
        let v = chars_of(s);
        let len = v.len();
        let off: usize = if len > 0 && (v[0] == '-' || v[0] == '+') {
            1
        } else {
            0
        };
        let negative = off == 1 && v[0] == '-';
        let mut point: usize = off;
        while point < len && v[point] != '.'
            invariant
                len == v@.len(),
                off <= point <= len,
                find_point(v@, off as int) == find_point(v@, point as int),
            decreases len - point,
        {
            point = point + 1;
        }
        let frac_lo: usize = if point < len {
            point + 1
        } else {
            len
        };
        let mut i: usize = off;
        while i < len
            invariant
                v@ == s@,
                len == v@.len(),
                off == sign_len(v@),
                off <= i <= len,
                off <= point <= len,
                point == find_point(v@, off as int),
                frac_lo == if point < len { point + 1 } else { len as int },
                forall|j: int| off <= j < i && j != point ==> is_digit(#[trigger] v@[j]),
            decreases len - i,
        {
            if i != point && !(v[i] >= '0' && v[i] <= '9') {
                proof {
                    let k = i as int;
                    assert(!is_digit(v@[k]));
                    assert(off <= k < point || frac_lo <= k < len);
                    assert(!digits_in(v@, off as int, point as int) || !digits_in(
                        v@,
                        frac_lo as int,
                        len as int,
                    ));
                }
                return None;
            }
            i = i + 1;
        }
        if (point - off) + (len - frac_lo) == 0 {
            return None;
        }
        let mut int_lo: usize = off;
        while int_lo < point && v[int_lo] == '0'
            invariant
                len == v@.len(),
                off <= int_lo <= point <= len,
                skip_zeros(v@, off as int, point as int) == skip_zeros(
                    v@,
                    int_lo as int,
                    point as int,
                ),
            decreases point - int_lo,
        {
            int_lo = int_lo + 1;
        }
        let mut frac_hi: usize = len;
        while frac_lo < frac_hi && v[frac_hi - 1] == '0'
            invariant
                len == v@.len(),
                frac_lo <= frac_hi <= len,
                trim_zeros(v@, frac_lo as int, len as int) == trim_zeros(
                    v@,
                    frac_lo as int,
                    frac_hi as int,
                ),
            decreases frac_hi - frac_lo,
        {
            frac_hi = frac_hi - 1;
        }
        proof {
            reveal_strlit("0");
            lemma_parse_decimal_wf(s@);
        }
        let integer = if int_lo == point {
            "0".to_owned()
        } else {
            s.substring_char(int_lo, point).to_owned()
        };
        assert(int_lo == point ==> integer@ =~= seq!['0']);
        let fraction = s.substring_char(frac_lo, frac_hi).to_owned();
        Some(Amount { negative, integer, fraction })
    }

    /// Another amount of the same value.
    pub fn copy(&self) -> (r: Amount)
        ensures
            r@ == self@,
            r.wf() == self.wf(),
    {
        Amount {
            negative: self.negative,
            integer: self.integer.clone(),
            fraction: self.fraction.clone(),
        }
    }

    /// The same magnitude with the opposite sign.
    pub fn negate(self) -> (r: Amount)
        ensures
            r@ == self@.negated(),
            r.wf() == self.wf(),
    {
        Amount { negative: !self.negative, integer: self.integer, fraction: self.fraction }
    }

    /// Whether the sign is negative.
    pub fn is_negative(&self) -> (r: bool)
        ensures
            r == self@.negative,
    {
        self.negative
    }

    /// The number as text, without needless zeros.
    pub fn render(&self) -> (r: String)
        ensures
            r@ == self@.text(),
    {
        proof {
            reveal_strlit("-");
            reveal_strlit(".");
            reveal_strlit("");
        }
        let mut out = if self.negative {
            "-".to_owned()
        } else {
            "".to_owned()
        };
        assert(out@ =~= if self.negative {
            seq!['-']
        } else {
            Seq::<char>::empty()
        });
        out.append(self.integer.as_str());
        if self.fraction.as_str().unicode_len() > 0 {
            out.append(".");
            out.append(self.fraction.as_str());
            assert(out@ =~= self@.text());
        } else {
            assert(out@ =~= self@.text());
        }
        out
    }
}

} // verus!
