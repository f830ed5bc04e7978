//! Decimal text for integers, and heights held in thousandths of a foot
//! written in feet with two decimals.

use vstd::prelude::*;

verus! {

/// The decimal digit for a value below ten.
pub open spec fn digit_char(n: int) -> char {
    seq!['0', '1', '2', '3', '4', '5', '6', '7', '8', '9'][n]
}

/// The decimal digits of `n`, without leading zeros.
pub open spec fn decimal_text(n: nat) -> Seq<char>
    decreases n,
{
    if n < 10 {
        seq![digit_char(n as int)]
    } else {
        decimal_text(n / 10) + seq![digit_char((n % 10) as int)]
    }
}

/// Hundredths of a foot, rounded half away from zero, for a height in
/// thousandths of a foot.
pub open spec fn rounded_hundredths(milli_ft: int) -> int {
    if milli_ft >= 0 {
        (milli_ft + 5) / 10
    } else {
        -((-milli_ft + 5) / 10)
    }
}

/// A height in feet with exactly two decimals, with a leading `-` for a
/// height below zero.
pub open spec fn height_text(milli_ft: int) -> Seq<char> {
    let h = if milli_ft >= 0 { rounded_hundredths(milli_ft) } else { -rounded_hundredths(milli_ft) };
    let sign = if milli_ft < 0 { seq!['-'] } else { Seq::<char>::empty() };
    sign + decimal_text((h / 100) as nat) + seq!['.'] + seq![digit_char((h % 100) / 10), digit_char(h % 10)]
}

/// The one-character text of a digit.
fn digit_str(d: u64) -> (r: &'static str)
    requires
        d < 10,
    ensures
        r@ == seq![digit_char(d as int)],
{
    proof {
        reveal_strlit("0");
        reveal_strlit("1");
        reveal_strlit("2");
        reveal_strlit("3");
        reveal_strlit("4");
        reveal_strlit("5");
        reveal_strlit("6");
        reveal_strlit("7");
        reveal_strlit("8");
        reveal_strlit("9");
    }
    if d == 0 {
        "0"
    } else if d == 1 {
        "1"
    } else if d == 2 {
        "2"
    } else if d == 3 {
        "3"
    } else if d == 4 {
        "4"
    } else if d == 5 {
        "5"
    } else if d == 6 {
        "6"
    } else if d == 7 {
        "7"
    } else if d == 8 {
        "8"
    } else {
        "9"
    }
}

/// Appends the decimal digits of `n`.
pub fn push_decimal(out: &mut String, n: u64)
    ensures
        final(out)@ == old(out)@ + decimal_text(n as nat),
    decreases n,
{
    if n >= 10 {
        push_decimal(out, n / 10);
        out.append(digit_str(n % 10));
        assert(final(out)@ =~= old(out)@ + decimal_text(n as nat));
    } else {
        out.append(digit_str(n));
    }
}

/// The text of a height in thousandths of a foot, in feet with two decimals.
pub fn format_height(milli_ft: i64) -> (r: String)
    ensures
        r@ == height_text(milli_ft as int),
{
    let magnitude: i128 = if milli_ft < 0 { -(milli_ft as i128) } else { milli_ft as i128 };
    let hundredths: i128 = (magnitude + 5) / 10;
    let mut out = String::new();
    if milli_ft < 0 {
        proof {
            reveal_strlit("-");
        }
        out.append("-");
    }
    push_decimal(&mut out, (hundredths / 100) as u64);
    proof {
        reveal_strlit(".");
    }
    out.append(".");
    let cents = (hundredths % 100) as u64;
    out.append(digit_str(cents / 10));
    out.append(digit_str(cents % 10));
    assert(out@ =~= height_text(milli_ft as int));
    out
}

} // verus!
