use vstd::prelude::*;

use crate::decimal::{decimal, pad_two, push_decimal, push_two_digits};
use crate::timestamp::{
    all_digits, digits_value, lemma_decimal_denotes, lemma_decimal_len_bound, lemma_leading_zeros,
    pow10,
};

verus! {

/// The path of the error log file that a daemon started at the given UTC
/// date and time writes: `./error-logs/` followed by
/// `YEAR-MM-DD_HH:MM:SS.json`, the year as is and the other fields padded
/// with zeros to two digits.
pub open spec fn log_file_path_text(
    year: nat,
    month: nat,
    day: nat,
    hour: nat,
    minute: nat,
    second: nat,
) -> Seq<char> {
    "./error-logs/"@ + decimal(year) + "-"@ + pad_two(decimal(month)) + "-"@ + pad_two(
        decimal(day),
    ) + "_"@ + pad_two(decimal(hour)) + ":"@ + pad_two(decimal(minute)) + ":"@ + pad_two(
        decimal(second),
    ) + ".json"@
}

/// The path of the error log file for a daemon started at the given UTC
/// date and time: see `log_file_path_text`.
pub fn log_file_path(year: u32, month: u32, day: u32, hour: u32, minute: u32, second: u32) -> (p:
    String)
    ensures
        p@ == log_file_path_text(
            year as nat,
            month as nat,
            day as nat,
            hour as nat,
            minute as nat,
            second as nat,
        ),
{
    let mut p = String::new();
    p.append("./error-logs/");
    push_decimal(&mut p, year as u128);
    p.append("-");
    push_two_digits(&mut p, month as u128);
    p.append("-");
    push_two_digits(&mut p, day as u128);
    p.append("_");
    push_two_digits(&mut p, hour as u128);
    p.append(":");
    push_two_digits(&mut p, minute as u128);
    p.append(":");
    push_two_digits(&mut p, second as u128);
    p.append(".json");
    p
}

/// A field below one hundred is written as exactly two digits that denote it.
proof fn lemma_two_digit_field(n: nat)
    requires
        n < 100,
    ensures
        pad_two(decimal(n)).len() == 2,
        all_digits(pad_two(decimal(n))),
        digits_value(pad_two(decimal(n))) == n,
{
    lemma_decimal_denotes(n);
    assert(pow10(2) == 100) by {
        reveal_with_fuel(pow10, 3);
    }
    lemma_decimal_len_bound(n, 2);
    if decimal(n).len() < 2 {
        lemma_leading_zeros((2 - decimal(n).len()) as nat, decimal(n));
    }
}

/// The log file's path reads back as the date and time it was made from: the
/// year's digits after `./error-logs/`, then the month, day, hour, minute and
/// second as two digits each, behind `-`, `-`, `_`, `:` and `:`, and `.json`
/// at the end.
pub proof fn law_log_path_reads_back(
    year: nat,
    month: nat,
    day: nat,
    hour: nat,
    minute: nat,
    second: nat,
)
    requires
        month < 100,
        day < 100,
        hour < 100,
        minute < 100,
        second < 100,
    ensures
        ({
            let p = log_file_path_text(year, month, day, hour, minute, second);
            let y = decimal(year).len() as int;
            &&& p.take(13) == "./error-logs/"@
            &&& all_digits(p.subrange(13, 13 + y))
            &&& digits_value(p.subrange(13, 13 + y)) == year
            &&& p[13 + y] == '-'
            &&& digits_value(p.subrange(14 + y, 16 + y)) == month
            &&& p[16 + y] == '-'
            &&& digits_value(p.subrange(17 + y, 19 + y)) == day
            &&& p[19 + y] == '_'
            &&& digits_value(p.subrange(20 + y, 22 + y)) == hour
            &&& p[22 + y] == ':'
            &&& digits_value(p.subrange(23 + y, 25 + y)) == minute
            &&& p[25 + y] == ':'
            &&& digits_value(p.subrange(26 + y, 28 + y)) == second
            &&& p.subrange(28 + y, p.len() as int) == ".json"@
        }),
{
    reveal_strlit("./error-logs/");
    reveal_strlit("-");
    reveal_strlit("_");
    reveal_strlit(":");
    reveal_strlit(".json");
    lemma_decimal_denotes(year);
    lemma_two_digit_field(month);
    lemma_two_digit_field(day);
    lemma_two_digit_field(hour);
    lemma_two_digit_field(minute);
    lemma_two_digit_field(second);
    let p = log_file_path_text(year, month, day, hour, minute, second);
    let y = decimal(year).len() as int;
    let yd = decimal(year);
    let mo = pad_two(decimal(month));
    let d = pad_two(decimal(day));
    let h = pad_two(decimal(hour));
    let mi = pad_two(decimal(minute));
    let s = pad_two(decimal(second));
    assert(p =~= "./error-logs/"@ + yd + seq!['-'] + mo + seq!['-'] + d + seq!['_'] + h + seq![':']
        + mi + seq![':'] + s + ".json"@);
    assert(p.take(13) =~= "./error-logs/"@);
    assert(p.subrange(13, 13 + y) =~= yd);
    assert(p.subrange(14 + y, 16 + y) =~= mo);
    assert(p.subrange(17 + y, 19 + y) =~= d);
    assert(p.subrange(20 + y, 22 + y) =~= h);
    assert(p.subrange(23 + y, 25 + y) =~= mi);
    assert(p.subrange(26 + y, 28 + y) =~= s);
    assert(p.subrange(28 + y, p.len() as int) =~= ".json"@);
}

} // verus!
