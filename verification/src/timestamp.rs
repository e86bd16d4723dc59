use vstd::prelude::*;

use crate::decimal::{decimal, digit_char, pad_zeros, push_decimal, push_padded};
use crate::text::chars_of;

verus! {

/// Attoseconds (units of 10^-18 s) in one second.
pub const UNITS_PER_SECOND: i128 = 1_000_000_000_000_000_000;

/// The largest whole number of seconds that a timestamp holds.
pub const MAX_WHOLE_SECONDS: u128 = 170_141_183_460_469_231_730;

pub open spec fn is_digit(c: char) -> bool {
    '0' <= c && c <= '9'
}

pub open spec fn digit_value(c: char) -> int {
    (c as int) - ('0' as int)
}

/// The number that a run of decimal digits denotes, most significant first.
pub open spec fn digits_value(s: Seq<char>) -> int
    decreases s.len(),
{
    if s.len() == 0 {
        0
    } else {
        digits_value(s.drop_last()) * 10 + digit_value(s.last())
    }
}

pub open spec fn all_digits(s: Seq<char>) -> bool {
    forall|i: int| 0 <= i < s.len() ==> is_digit(#[trigger] s[i])
}

/// How many decimal digits `s` starts with.
pub open spec fn leading_digits(s: Seq<char>) -> nat
    decreases s.len(),
{
    if s.len() > 0 && is_digit(s[0]) {
        1 + leading_digits(s.drop_first())
    } else {
        0
    }
}

/// The characters that the daemon drops from a bracketed kernel timestamp
/// before reading its number.
pub open spec fn is_stamp_decoration(c: char) -> bool {
    c == '[' || c == ']' || c == ' '
}

/// `s` without its brackets and spaces.
pub open spec fn strip_decoration(s: Seq<char>) -> Seq<char>
    decreases s.len(),
{
    if s.len() == 0 {
        Seq::empty()
    } else if is_stamp_decoration(s.last()) {
        strip_decoration(s.drop_last())
    } else {
        strip_decoration(s.drop_last()).push(s.last())
    }
}

pub open spec fn sign_len(t: Seq<char>) -> int {
    if t.len() > 0 && (t[0] == '+' || t[0] == '-') {
        1
    } else {
        0
    }
}

pub open spec fn is_negative(t: Seq<char>) -> bool {
    t.len() > 0 && t[0] == '-'
}

/// The unsigned part of a decimal text: what follows an optional sign.
pub open spec fn unsigned_part(t: Seq<char>) -> Seq<char> {
    t.skip(sign_len(t))
}

/// The digits before the decimal point.
pub open spec fn whole_digits(t: Seq<char>) -> Seq<char> {
    unsigned_part(t).take(leading_digits(unsigned_part(t)) as int)
}

/// What follows the digits before the decimal point.
pub open spec fn after_whole(t: Seq<char>) -> Seq<char> {
    unsigned_part(t).skip(leading_digits(unsigned_part(t)) as int)
}

/// The digits after the decimal point (empty when there is no point).
pub open spec fn fraction_digits(t: Seq<char>) -> Seq<char> {
    if after_whole(t).len() == 0 {
        Seq::empty()
    } else {
        after_whole(t).drop_first()
    }
}

/// `t` is a decimal number without exponent: an optional sign, digits, and
/// optionally a point followed by digits, with at least one digit in all.
pub open spec fn is_decimal_text(t: Seq<char>) -> bool {
    &&& (after_whole(t).len() == 0 || (after_whole(t)[0] == '.' && all_digits(
        fraction_digits(t),
    )))
    &&& whole_digits(t).len() + fraction_digits(t).len() > 0
}

/// The first eighteen fraction digits, padded with zeros: the attoseconds.
pub open spec fn eighteen_digits(f: Seq<char>) -> Seq<char> {
    (f + Seq::new(18, |i: int| '0')).take(18)
}

/// The value of a decimal text in attoseconds, digits past the eighteenth
/// fraction digit dropped; `None` when the text is no decimal number or its
/// whole part does not fit in 64 bits.
pub open spec fn decimal_value(t: Seq<char>) -> Option<int> {
    if is_decimal_text(t) && digits_value(whole_digits(t)) <= MAX_WHOLE_SECONDS {
        let magnitude = digits_value(whole_digits(t)) * 1_000_000_000_000_000_000 + digits_value(
            eighteen_digits(fraction_digits(t)),
        );
        Some(
            if is_negative(t) {
                -magnitude
            } else {
                magnitude
            },
        )
    } else {
        None
    }
}

/// The value of a kernel timestamp such as `[ 1234.567890]`: the decimal
/// number that is left once brackets and spaces are dropped.
pub open spec fn stamp_value(raw: Seq<char>) -> Option<int> {
    decimal_value(strip_decoration(raw))
}

proof fn lemma_digits_value_nonneg(s: Seq<char>)
    requires
        all_digits(s),
    ensures
        digits_value(s) >= 0,
    decreases s.len(),
{
    if s.len() > 0 {
        assert(all_digits(s.drop_last())) by {
            assert forall|i: int| 0 <= i < s.drop_last().len() implies is_digit(
                #[trigger] s.drop_last()[i],
            ) by {
                assert(s.drop_last()[i] == s[i]);
            }
        }
        lemma_digits_value_nonneg(s.drop_last());
        assert(is_digit(s[s.len() - 1]));
    }
}

/// A value never shrinks when digits are appended.
proof fn lemma_digits_value_prefix(s: Seq<char>, k: int)
    requires
        all_digits(s),
        0 <= k <= s.len(),
    ensures
        digits_value(s.take(k)) <= digits_value(s),
    decreases s.len(),
{
    if k < s.len() {
        let d = s.drop_last();
        assert(all_digits(d)) by {
            assert forall|i: int| 0 <= i < d.len() implies is_digit(#[trigger] d[i]) by {
                assert(d[i] == s[i]);
            }
        }
        lemma_digits_value_prefix(d, k);
        assert(d.take(k) =~= s.take(k));
        lemma_digits_value_nonneg(d);
        assert(is_digit(s[s.len() - 1]));
    } else {
        assert(s.take(k) =~= s);
    }
}

proof fn lemma_leading_digits(s: Seq<char>, p: int)
    requires
        0 <= p <= s.len(),
        all_digits(s.take(p)),
        p == s.len() || !is_digit(s[p]),
    ensures
        leading_digits(s) == p,
    decreases p,
{
    if p > 0 {
        assert(s.take(p)[0] == s[0]);
        let t = s.drop_first();
        assert(all_digits(t.take(p - 1))) by {
            assert forall|i: int| 0 <= i < p - 1 implies is_digit(#[trigger] t.take(p - 1)[i]) by {
                assert(t.take(p - 1)[i] == s.take(p)[i + 1]);
            }
        }
        if p < s.len() {
            assert(t[p - 1] == s[p]);
        }
        lemma_leading_digits(t, p - 1);
    }
}

pub open spec fn pow10(k: nat) -> nat
    decreases k,
{
    if k == 0 {
        1
    } else {
        10 * pow10((k - 1) as nat)
    }
}

proof fn lemma_pow10_eighteen()
    ensures
        pow10(18) == 1_000_000_000_000_000_000,
{
    reveal_with_fuel(pow10, 19);
}

proof fn lemma_pow10_le(k: nat)
    requires
        k <= 18,
    ensures
        pow10(k) <= 1_000_000_000_000_000_000,
    decreases 18 - k,
{
    if k < 18 {
        lemma_pow10_le(k + 1);
    } else {
        lemma_pow10_eighteen();
    }
}

/// A time in attoseconds written as seconds with eighteen decimals, such as
/// `1234.567890000000000000`, with a minus sign when negative.
pub open spec fn seconds_text(v: int) -> Seq<char> {
    let m = if v < 0 {
        -v
    } else {
        v
    };
    (if v < 0 {
        "-"@
    } else {
        Seq::empty()
    }) + decimal((m / 1_000_000_000_000_000_000) as nat) + "."@ + pad_zeros(
        decimal((m % 1_000_000_000_000_000_000) as nat),
        18,
    )
}

proof fn lemma_digit_char(d: nat)
    requires
        d < 10,
    ensures
        is_digit(digit_char(d)),
        digit_value(digit_char(d)) == d,
{
}

/// A numeral is made of digits and denotes its number.
pub(crate) proof fn lemma_decimal_denotes(n: nat)
    ensures
        decimal(n).len() >= 1,
        all_digits(decimal(n)),
        digits_value(decimal(n)) == n,
    decreases n,
{
    if n < 10 {
        lemma_digit_char(n);
        assert(decimal(n).drop_last() =~= Seq::<char>::empty());
        assert(decimal(n).last() == digit_char(n));
        assert(digits_value(Seq::<char>::empty()) == 0);
    } else {
        let d = decimal(n / 10);
        lemma_decimal_denotes(n / 10);
        lemma_digit_char(n % 10);
        assert(decimal(n).drop_last() =~= d);
        assert(decimal(n).last() == digit_char(n % 10));
        assert(digits_value(decimal(n)) == digits_value(d) * 10 + digit_value(digit_char(n % 10)));
        assert(n == (n / 10) * 10 + n % 10);
        assert(all_digits(decimal(n))) by {
            assert forall|i: int| 0 <= i < decimal(n).len() implies is_digit(
                #[trigger] decimal(n)[i],
            ) by {
                if i < d.len() {
                    assert(decimal(n)[i] == d[i]);
                }
            }
        }
    }
}

/// A number below `10^k` has at most `k` digits.
pub(crate) proof fn lemma_decimal_len_bound(n: nat, k: nat)
    requires
        k >= 1,
        n < pow10(k),
    ensures
        decimal(n).len() <= k,
    decreases n,
{
    if n >= 10 {
        if k == 1 {
            assert(pow10(1) == 10) by {
                reveal_with_fuel(pow10, 2);
            }
        } else {
            let p = pow10((k - 1) as nat);
            assert(pow10(k) == 10 * p);
            assert(n / 10 < p) by (nonlinear_arith)
                requires
                    n < 10 * p,
            ;
            lemma_decimal_len_bound(n / 10, (k - 1) as nat);
        }
    }
}

/// Zeros in front of digits do not change their value.
pub(crate) proof fn lemma_leading_zeros(j: nat, s: Seq<char>)
    requires
        all_digits(s),
    ensures
        all_digits(Seq::new(j, |i: int| '0') + s),
        digits_value(Seq::new(j, |i: int| '0') + s) == digits_value(s),
    decreases s.len() + j,
{
    let z = Seq::new(j, |i: int| '0');
    assert(all_digits(z + s)) by {
        assert forall|i: int| 0 <= i < (z + s).len() implies is_digit(#[trigger] (z + s)[i]) by {
            if i >= j {
                assert((z + s)[i] == s[i - j]);
            }
        }
    }
    if s.len() > 0 {
        let d = s.drop_last();
        assert(all_digits(d)) by {
            assert forall|i: int| 0 <= i < d.len() implies is_digit(#[trigger] d[i]) by {
                assert(d[i] == s[i]);
            }
        }
        lemma_leading_zeros(j, d);
        assert((z + s).drop_last() =~= z + d);
        assert((z + s).last() == s.last());
    } else if j > 0 {
        let z1 = Seq::new((j - 1) as nat, |i: int| '0');
        lemma_leading_zeros((j - 1) as nat, s);
        assert((z + s).drop_last() =~= z1 + s);
        assert((z + s).last() == '0');
    } else {
        assert(z + s =~= Seq::<char>::empty());
    }
}

/// The text of a time reads back as that same time, for every time whose
/// whole seconds a timestamp can hold.
pub proof fn law_seconds_text_reads_back(v: int)
    requires
        (if v < 0 {
            -v
        } else {
            v
        }) / 1_000_000_000_000_000_000 <= MAX_WHOLE_SECONDS,
    ensures
        decimal_value(seconds_text(v)) == Some(v),
{
    reveal_strlit("-");
    reveal_strlit(".");
    let e: int = 1_000_000_000_000_000_000;
    let m = if v < 0 {
        -v
    } else {
        v
    };
    let w = (m / e) as nat;
    let f = (m % e) as nat;
    let wd = decimal(w);
    let fd = decimal(f);
    lemma_decimal_denotes(w);
    lemma_decimal_denotes(f);
    lemma_pow10_eighteen();
    lemma_decimal_len_bound(f, 18);
    let pad = pad_zeros(fd, 18);
    if fd.len() < 18 {
        lemma_leading_zeros((18 - fd.len()) as nat, fd);
    }
    assert(pad.len() == 18);
    assert(all_digits(pad));
    assert(digits_value(pad) == f);
    let b = wd + seq!['.'] + pad;
    let t = seconds_text(v);
    assert("."@ =~= seq!['.']);
    if v < 0 {
        assert(t =~= seq!['-'] + b);
        assert(t[0] == '-');
        assert(unsigned_part(t) =~= b);
    } else {
        assert(t =~= b);
        assert(t[0] == wd[0]);
        assert(is_digit(wd[0]));
        assert(unsigned_part(t) =~= b);
    }
    assert(b.take(wd.len() as int) =~= wd);
    assert(b[wd.len() as int] == '.');
    lemma_leading_digits(b, wd.len() as int);
    assert(whole_digits(t) =~= wd);
    assert(after_whole(t) =~= seq!['.'] + pad);
    assert(fraction_digits(t) =~= pad);
    assert(eighteen_digits(pad) =~= pad);
    assert(m == w * e + f);
}

/// Digits denote a number below ten to the power of their count.
proof fn lemma_digits_value_bound(s: Seq<char>)
    requires
        all_digits(s),
    ensures
        0 <= digits_value(s) < pow10(s.len()),
    decreases s.len(),
{
    if s.len() > 0 {
        let d = s.drop_last();
        assert(all_digits(d)) by {
            assert forall|i: int| 0 <= i < d.len() implies is_digit(#[trigger] d[i]) by {
                assert(d[i] == s[i]);
            }
        }
        lemma_digits_value_bound(d);
        assert(is_digit(s[s.len() - 1]));
        let p = pow10(d.len());
        let x = digits_value(d);
        let c = digit_value(s.last());
        assert(x * 10 + c < 10 * p) by (nonlinear_arith)
            requires
                0 <= x < p,
                0 <= c <= 9,
        ;
        assert(pow10(s.len()) == 10 * p);
    } else {
        assert(pow10(0) == 1);
    }
}

/// The text of any time read from a decimal text reads back as that time.
pub proof fn law_read_time_text_reads_back(t: Seq<char>)
    requires
        decimal_value(t) is Some,
    ensures
        decimal_value(seconds_text(decimal_value(t)->0)) == decimal_value(t),
{
    let e: int = 1_000_000_000_000_000_000;
    let w = digits_value(whole_digits(t));
    let f18 = eighteen_digits(fraction_digits(t));
    let fz = fraction_digits(t) + Seq::new(18, |i: int| '0');
    assert(all_digits(fz)) by {
        assert forall|i: int| 0 <= i < fz.len() implies is_digit(#[trigger] fz[i]) by {
            if i < fraction_digits(t).len() {
                assert(fz[i] == fraction_digits(t)[i]);
            }
        }
    }
    assert(all_digits(f18)) by {
        assert forall|i: int| 0 <= i < f18.len() implies is_digit(#[trigger] f18[i]) by {
            assert(f18[i] == fz[i]);
        }
    }
    lemma_digits_value_bound(f18);
    lemma_pow10_eighteen();
    let f = digits_value(f18);
    assert(all_digits(whole_digits(t))) by {
        lemma_leading_digits_are_digits(unsigned_part(t));
    }
    lemma_digits_value_nonneg(whole_digits(t));
    let m = w * e + f;
    assert(m / e == w && m % e == f) by (nonlinear_arith)
        requires
            m == w * e + f,
            0 <= f < e,
            w >= 0,
            e > 0,
    ;
    law_seconds_text_reads_back(decimal_value(t)->0);
}

/// The digits that a text starts with are digits.
proof fn lemma_leading_digits_are_digits(b: Seq<char>)
    ensures
        leading_digits(b) <= b.len(),
        all_digits(b.take(leading_digits(b) as int)),
    decreases b.len(),
{
    if b.len() > 0 && is_digit(b[0]) {
        let r = b.drop_first();
        lemma_leading_digits_are_digits(r);
        let p = leading_digits(r) as int;
        assert forall|i: int| 0 <= i < p + 1 implies is_digit(#[trigger] b.take(p + 1)[i]) by {
            if i > 0 {
                assert(b.take(p + 1)[i] == r.take(p)[i - 1]);
            }
        }
    }
}

/// A point in time read from a kernel log line, in attoseconds.
#[derive(Clone, Copy)]
pub struct Timestamp {
    units: i128,
}

impl View for Timestamp {
    type V = int;

    closed spec fn view(&self) -> int {
        self.units as int
    }
}

impl Timestamp {
    /// The moment before any kernel error has been seen.
    pub fn zero() -> (t: Timestamp)
        ensures
            t@ == 0,
    {
        Timestamp { units: 0 }
    }

    /// The value in attoseconds.
    pub fn as_attoseconds(&self) -> (n: i128)
        ensures
            n == self@,
    {
        self.units
    }

    /// The time as seconds with eighteen decimals: see `seconds_text`.
    pub fn to_seconds_text(&self) -> (s: String)
        ensures
            s@ == seconds_text(self@),
    {
        let mut s = String::new();
        if self.units < 0 {
            s.append("-");
        }
        let m: u128 = if self.units < 0 {
            (-(self.units + 1)) as u128 + 1
        } else {
            self.units as u128
        };
        assert(m == if self@ < 0 { -self@ } else { self@ });
        push_decimal(&mut s, m / 1_000_000_000_000_000_000);
        s.append(".");
        push_padded(&mut s, m % 1_000_000_000_000_000_000, 18);
        s
    }

    /// Whether this moment lies strictly after `other`.
    pub fn is_after(&self, other: &Timestamp) -> (r: bool)
        ensures
            r == (self@ > other@),
    {
        self.units > other.units
    }

    /// Reads a decimal number such as `-12.5`: see `decimal_value`.
    pub fn from_decimal(t: &Vec<char>) -> (r: Option<Timestamp>)
        ensures
            match decimal_value(t@) {
                Some(v) => r matches Some(ts) && ts@ == v,
                None => r is None,
            },
    {
        let n = t.len();
        let ghost s = t@;
        let start: usize = if n > 0 && (t[0] == '+' || t[0] == '-') {
            1
        } else {
            0
        };
        let negative = n > 0 && t[0] == '-';
        let ghost b = unsigned_part(s);
        assert(b =~= s.skip(start as int));
        // the digits before the point
        let mut i: usize = start;
        let mut whole: u128 = 0;
        let mut fits = true;
        while i < n && '0' <= t[i] && t[i] <= '9'
            invariant
                start <= i <= n,
                n == s.len(),
                t@ == s,
                b == s.skip(start as int),
                all_digits(b.take(i - start)),
                fits ==> whole == digits_value(b.take(i - start)),
                fits ==> whole <= MAX_WHOLE_SECONDS,
                !fits ==> digits_value(b.take(i - start)) > MAX_WHOLE_SECONDS,
            decreases n - i,
        {
            let d = (t[i] as u32 - '0' as u32) as u128;
            let ghost old_take = b.take(i - start);
            let ghost new_take = b.take(i + 1 - start);
            assert(new_take.drop_last() =~= old_take);
            assert(new_take.last() == t@[i as int]);
            assert(all_digits(new_take)) by {
                assert forall|k: int| 0 <= k < new_take.len() implies is_digit(
                    #[trigger] new_take[k],
                ) by {
                    if k < old_take.len() {
                        assert(new_take[k] == old_take[k]);
                    }
                }
            }
            if fits {
                if whole > (MAX_WHOLE_SECONDS - d) / 10 {
                    fits = false;
                } else {
                    whole = whole * 10 + d;
                }
            } else {
                proof {
                    lemma_digits_value_nonneg(old_take);
                }
            }
            i = i + 1;
        }
        let p: usize = i - start;
        proof {
            lemma_leading_digits(b, p as int);
        }
        assert(whole_digits(s) =~= b.take(p as int));
        assert(after_whole(s) =~= s.skip(i as int));
        if !fits {
            return None;
        }
        // the digits after the point
        let mut frac_start: usize = i;
        let mut well_formed = true;
        if i < n {
            if t[i] != '.' {
                well_formed = false;
            } else {
                frac_start = i + 1;
                let mut j: usize = i + 1;
                while j < n
                    invariant
                        i < j <= n,
                        n == s.len(),
                        t@ == s,
                        well_formed ==> forall|k: int| i + 1 <= k < j ==> is_digit(s[k]),
                        !well_formed ==> !all_digits(s.skip(i + 1)),
                    decreases n - j,
                {
                    if !('0' <= t[j] && t[j] <= '9') {
                        if well_formed {
                            assert(s.skip(i + 1)[j - i - 1] == s[j as int]);
                        }
                        well_formed = false;
                    }
                    j = j + 1;
                }
                if well_formed {
                    assert(all_digits(s.skip(i + 1))) by {
                        assert forall|k: int| 0 <= k < s.skip(i + 1).len() implies is_digit(
                            #[trigger] s.skip(i + 1)[k],
                        ) by {
                            assert(s.skip(i + 1)[k] == s[i + 1 + k]);
                        }
                    }
                }
            }
        }
        let ghost frac = fraction_digits(s);
        assert(i < n ==> after_whole(s).drop_first() =~= s.skip(i + 1));
        assert(i < n ==> after_whole(s)[0] == s[i as int]);
        if !well_formed {
            return None;
        }
        assert(frac =~= s.skip(frac_start as int));
        if p == 0 && frac_start == n {
            return None;
        }
        assert(is_decimal_text(s));
        // eighteen digits of fraction, padded with zeros
        let ghost padded = eighteen_digits(frac);
        let mut k: usize = 0;
        let mut f: u64 = 0;
        let mut limit: u64 = 1;
        proof {
            lemma_pow10_eighteen();
        }
        while k < 18
            invariant
                k <= 18,
                n == s.len(),
                t@ == s,
                frac == s.skip(frac_start as int),
                frac_start <= n,
                all_digits(frac),
                padded == eighteen_digits(frac),
                f == digits_value(padded.take(k as int)),
                limit == pow10(k as nat),
                f < limit,
            decreases 18 - k,
        {
            let c = if k < n - frac_start {
                t[frac_start + k]
            } else {
                '0'
            };
            assert(c == padded[k as int]) by {
                if k < n - frac_start {
                    assert(frac[k as int] == s[frac_start + k]);
                }
            }
            assert(is_digit(c)) by {
                if k < n - frac_start {
                    assert(frac[k as int] == s[frac_start + k]);
                }
            }
            let d = (c as u32 - '0' as u32) as u64;
            assert(padded.take(k + 1).drop_last() =~= padded.take(k as int));
            proof {
                lemma_pow10_eighteen();
                lemma_pow10_le((k + 1) as nat);
            }
            assert(f * 10 + d < limit * 10) by (nonlinear_arith)
                requires
                    f < limit,
                    d <= 9,
            ;
            f = f * 10 + d;
            limit = limit * 10;
            k = k + 1;
        }
        proof {
            lemma_pow10_eighteen();
        }
        assert(padded.take(18) =~= padded);
        assert(whole * 1_000_000_000_000_000_000 + f <= i128::MAX) by (nonlinear_arith)
            requires
                whole <= 170_141_183_460_469_231_730u128,
                f < 1_000_000_000_000_000_000u64,
        ;
        let magnitude: i128 = (whole as i128) * UNITS_PER_SECOND + (f as i128);
        let units = if negative {
            -magnitude
        } else {
            magnitude
        };
        Some(Timestamp { units })
    }

    /// Reads a bracketed kernel timestamp such as `[ 1234.567890]`: see
    /// `stamp_value`.
    pub fn from_kernel_stamp(raw: &str) -> (r: Option<Timestamp>)
        ensures
            match stamp_value(raw@) {
                Some(v) => r matches Some(ts) && ts@ == v,
                None => r is None,
            },
    {
        let cs = chars_of(raw);
        let mut kept: Vec<char> = Vec::new();
        let mut i: usize = 0;
        while i < cs.len()
            invariant
                i <= cs.len(),
                cs@ == raw@,
                kept@ == strip_decoration(cs@.take(i as int)),
            decreases cs.len() - i,
        {
            let c = cs[i];
            assert(cs@.take(i + 1).drop_last() =~= cs@.take(i as int));
            if !(c == '[' || c == ']' || c == ' ') {
                kept.push(c);
            }
            i = i + 1;
        }
        assert(cs@.take(i as int) =~= cs@);
        Timestamp::from_decimal(&kept)
    }
}

} // verus!
