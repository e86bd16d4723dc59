use vstd::prelude::*;

verus! {

/// The character of a decimal digit.
pub open spec fn digit_char(d: nat) -> char {
    if d == 0 {
        '0'
    } else if d == 1 {
        '1'
    } else if d == 2 {
        '2'
    } else if d == 3 {
        '3'
    } else if d == 4 {
        '4'
    } else if d == 5 {
        '5'
    } else if d == 6 {
        '6'
    } else if d == 7 {
        '7'
    } else if d == 8 {
        '8'
    } else {
        '9'
    }
}

/// The decimal numeral of `n`, without leading zeros.
pub open spec fn decimal(n: nat) -> Seq<char>
    decreases n,
{
    if n < 10 {
        seq![digit_char(n)]
    } else {
        decimal(n / 10).push(digit_char(n % 10))
    }
}

/// `s`, padded on the left with zeros to at least `width` characters.
pub open spec fn pad_zeros(s: Seq<char>, width: nat) -> Seq<char> {
    if s.len() < width {
        Seq::new((width - s.len()) as nat, |i: int| '0') + s
    } else {
        s
    }
}

/// `s`, padded on the left with zeros to at least two characters.
pub open spec fn pad_two(s: Seq<char>) -> Seq<char> {
    pad_zeros(s, 2)
}

/// The text of one decimal digit.
fn digit_text(d: u128) -> (s: &'static str)
    requires
        d < 10,
    ensures
        s@ == seq![digit_char(d as nat)],
{
    proof {
        reveal_strlit("0");
        reveal_strlit("1");
        reveal_strlit("2");
        reveal_strlit("3");
        reveal_strlit("4");
        reveal_strlit("5");
        reveal_strlit("6");
        reveal_strlit("7");
        reveal_strlit("8");
        reveal_strlit("9");
    }
    if d == 0 {
        "0"
    } else if d == 1 {
        "1"
    } else if d == 2 {
        "2"
    } else if d == 3 {
        "3"
    } else if d == 4 {
        "4"
    } else if d == 5 {
        "5"
    } else if d == 6 {
        "6"
    } else if d == 7 {
        "7"
    } else if d == 8 {
        "8"
    } else {
        "9"
    }
}

/// Appends the decimal numeral of `n` to `out`.
pub fn push_decimal(out: &mut String, n: u128)
    ensures
        final(out)@ == old(out)@ + decimal(n as nat),
{
    let mut digits: Vec<u128> = Vec::new();
    let mut m: u128 = n;
    // the digits of `n` below those of `m`, least significant first
    while m >= 10
        invariant
            decimal(n as nat) == decimal(m as nat) + digits_text(digits@),
            forall|i: int| 0 <= i < digits@.len() ==> #[trigger] digits@[i] < 10,
        decreases m,
    {
        let d = m % 10;
        let ghost old_digits = digits@;
        digits.push(d);
        assert(digits_text(digits@) =~= seq![digit_char(d as nat)] + digits_text(old_digits)) by {
            assert(digits@.drop_last() =~= old_digits);
        }
        m = m / 10;
    }
    let ghost start = out@;
    out.append(digit_text(m));
    assert(decimal(m as nat) == seq![digit_char(m as nat)]);
    assert(digits@.take(digits@.len() as int) =~= digits@);
    assert(out@ + digits_text(digits@) =~= start + (decimal(m as nat) + digits_text(digits@)));
    let mut i: usize = digits.len();
    while i > 0
        invariant
            i <= digits@.len(),
            forall|k: int| 0 <= k < digits@.len() ==> #[trigger] digits@[k] < 10,
            out@ + digits_text(digits@.take(i as int)) == start + decimal(n as nat),
        decreases i,
    {
        i = i - 1;
        let ghost before = out@;
        out.append(digit_text(digits[i]));
        assert(digits_text(digits@.take(i + 1)) =~= seq![digit_char(digits@[i as int] as nat)]
            + digits_text(digits@.take(i as int))) by {
            assert(digits@.take(i + 1).drop_last() =~= digits@.take(i as int));
        }
        assert(out@ + digits_text(digits@.take(i as int)) =~= before + digits_text(
            digits@.take(i + 1),
        ));
    }
    assert(digits@.take(0) =~= Seq::<u128>::empty());
    assert(out@ =~= start + decimal(n as nat));
}

/// The digits, least significant first, written most significant first.
pub open spec fn digits_text(ds: Seq<u128>) -> Seq<char>
    decreases ds.len(),
{
    if ds.len() == 0 {
        Seq::empty()
    } else {
        seq![digit_char(ds.last() as nat)] + digits_text(ds.drop_last())
    }
}

/// Appends the decimal numeral of `n`, padded with zeros to `width`
/// characters.
pub fn push_padded(out: &mut String, n: u128, width: usize)
    ensures
        final(out)@ == old(out)@ + pad_zeros(decimal(n as nat), width as nat),
{
    let mut numeral = String::new();
    push_decimal(&mut numeral, n);
    assert(numeral@ =~= decimal(n as nat));
    let len = numeral.as_str().unicode_len();
    let ghost start = out@;
    let mut k: usize = len;
    while k < width
        invariant
            len <= k,
            len == decimal(n as nat).len(),
            k <= width || k == len,
            out@ == start + Seq::new((k - len) as nat, |i: int| '0'),
        decreases width - k,
    {
        out.append("0");
        proof {
            reveal_strlit("0");
        }
        k = k + 1;
        assert(out@ =~= start + Seq::new((k - len) as nat, |i: int| '0'));
    }
    assert(out@ =~= start + Seq::new((k - len) as nat, |i: int| '0'));
    let ghost zeros = out@;
    out.append(numeral.as_str());
    if len < width {
        assert(out@ =~= start + pad_zeros(decimal(n as nat), width as nat));
    } else {
        assert(zeros =~= start);
        assert(out@ =~= start + pad_zeros(decimal(n as nat), width as nat));
    }
}

/// Appends the decimal numeral of `n`, padded with zeros to two characters.
pub fn push_two_digits(out: &mut String, n: u128)
    ensures
        final(out)@ == old(out)@ + pad_two(decimal(n as nat)),
{
    push_padded(out, n, 2);
}

} // verus!
