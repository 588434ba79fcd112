//! Decimal text: rendering integers, fixed-point amounts and dates as
//! strings, with the exact character sequences stated in specs.

use vstd::prelude::*;

verus! {

/// String equality, stated over the views.
pub fn str_eq(a: &str, b: &str) -> (r: bool)
    ensures
        r == (a@ == b@),
{
    let x = a.to_owned();
    let y = b.to_owned();
    x == y
}

/// The digit character for one decimal digit.
pub open spec fn dec_digit(d: int) -> char {
    if d == 0 {
        '0'
    } else if d == 1 {
        '1'
    } else if d == 2 {
        '2'
    } else if d == 3 {
        '3'
    } else if d == 4 {
        '4'
    } else if d == 5 {
        '5'
    } else if d == 6 {
        '6'
    } else if d == 7 {
        '7'
    } else if d == 8 {
        '8'
    } else {
        '9'
    }
}

/// The decimal representation of a non-negative integer, no leading
/// zeroes (a single zero for zero).
pub open spec fn dec_str(n: int) -> Seq<char>
    decreases n,
{
    if n < 10 {
        seq![dec_digit(n)]
    } else {
        dec_str(n / 10) + seq![dec_digit(n % 10)]
    }
}

/// A number padded with leading zeroes to at least two digits.
pub open spec fn dec_str_pad2(n: int) -> Seq<char> {
    if n < 10 {
        seq!['0'] + dec_str(n)
    } else {
        dec_str(n)
    }
}

/// A number padded with leading zeroes to at least four digits.
pub open spec fn dec_str_pad4(n: int) -> Seq<char> {
    if n < 10 {
        seq!['0', '0', '0'] + dec_str(n)
    } else if n < 100 {
        seq!['0', '0'] + dec_str(n)
    } else if n < 1000 {
        seq!['0'] + dec_str(n)
    } else {
        dec_str(n)
    }
}

/// A fixed-point amount in hundredths, rendered with two decimals and a
/// leading minus for negative values.
pub open spec fn fixed2_str(c: int) -> Seq<char> {
    if c < 0 {
        seq!['-'] + fixed2_mag(-c)
    } else {
        fixed2_mag(c)
    }
}

/// The magnitude part of a fixed-point amount.
pub open spec fn fixed2_mag(c: int) -> Seq<char> {
    dec_str(c / 100) + seq!['.', dec_digit((c % 100) / 10), dec_digit(c % 10)]
}

/// One decimal digit as a string.
fn digit_string(d: u64) -> (r: String)
    requires
        d < 10,
    ensures
        r@ == seq![dec_digit(d as int)],
{
    let r = if d == 0 {
        "0"
    } else if d == 1 {
        "1"
    } else if d == 2 {
        "2"
    } else if d == 3 {
        "3"
    } else if d == 4 {
        "4"
    } else if d == 5 {
        "5"
    } else if d == 6 {
        "6"
    } else if d == 7 {
        "7"
    } else if d == 8 {
        "8"
    } else {
        "9"
    };
    proof {
        reveal_strlit("0");
        reveal_strlit("1");
        reveal_strlit("2");
        reveal_strlit("3");
        reveal_strlit("4");
        reveal_strlit("5");
        reveal_strlit("6");
        reveal_strlit("7");
        reveal_strlit("8");
        reveal_strlit("9");
        assert(r@ =~= seq![dec_digit(d as int)]);
    }
    r.to_owned()
}

/// The decimal representation of a non-negative integer.
pub fn u64_string(n: u64) -> (r: String)
    ensures
        r@ == dec_str(n as int),
    decreases n,
{
    if n < 10 {
        digit_string(n)
    } else {
        let mut s = u64_string(n / 10);
        let d = digit_string(n % 10);
        s.append(d.as_str());
        proof {
            assert(s@ =~= dec_str(n as int));
        }
        s
    }
}

/// A number padded with leading zeroes to at least two digits.
pub fn u64_string_pad2(n: u64) -> (r: String)
    ensures
        r@ == dec_str_pad2(n as int),
{
    let mut s = String::new();
    if n < 10 {
        proof {
            reveal_strlit("0");
        }
        s.append("0");
    }
    let d = u64_string(n);
    s.append(d.as_str());
    proof {
        assert(s@ =~= dec_str_pad2(n as int));
    }
    s
}

/// A number padded with leading zeroes to at least four digits.
pub fn u64_string_pad4(n: u64) -> (r: String)
    ensures
        r@ == dec_str_pad4(n as int),
{
    let mut s = String::new();
    proof {
        reveal_strlit("000");
        reveal_strlit("00");
        reveal_strlit("0");
    }
    if n < 10 {
        s.append("000");
    } else if n < 100 {
        s.append("00");
    } else if n < 1000 {
        s.append("0");
    }
    let d = u64_string(n);
    s.append(d.as_str());
    proof {
        assert(s@ =~= dec_str_pad4(n as int));
    }
    s
}

/// A fixed-point amount in hundredths rendered with two decimals, e.g.
/// one hundred fifty in hundredths as `1.50`.
pub fn fixed2_string(c: i64) -> (r: String)
    ensures
        r@ == fixed2_str(c as int),
{
    let mut s = String::new();
    let mag: u64 = if c < 0 {
        proof {
            reveal_strlit("-");
        }
        s.append("-");
        (-(c as i128)) as u64
    } else {
        c as u64
    };
    let whole = u64_string(mag / 100);
    s.append(whole.as_str());
    proof {
        reveal_strlit(".");
    }
    s.append(".");
    let d1 = digit_string((mag % 100) / 10);
    s.append(d1.as_str());
    let d2 = digit_string(mag % 10);
    s.append(d2.as_str());
    proof {
        if c < 0 {
            assert(mag == -(c as int));
            assert(s@ =~= seq!['-'] + fixed2_mag(-(c as int)));
        } else {
            assert(s@ =~= fixed2_mag(c as int));
        }
    }
    s
}

/// A calendar date in the form `YYYY-MM-DD`.
pub open spec fn date_str(y: int, m: int, d: int) -> Seq<char> {
    dec_str_pad4(y) + seq!['-'] + dec_str_pad2(m) + seq!['-'] + dec_str_pad2(d)
}

/// A calendar date in the form `YYYY-MM-DD`; the year is taken
/// non-negative, as stored dates are.
pub fn date_string(date: &crate::date::Date) -> (r: String)
    requires
        date.year >= 0,
    ensures
        r@ == date_str(date.year as int, date.month as int, date.day as int),
{
    let mut s = u64_string_pad4(date.year as u64);
    proof {
        reveal_strlit("-");
    }
    s.append("-");
    let m = u64_string_pad2(date.month as u64);
    s.append(m.as_str());
    s.append("-");
    let d = u64_string_pad2(date.day as u64);
    s.append(d.as_str());
    proof {
        assert(s@ =~= date_str(date.year as int, date.month as int, date.day as int));
    }
    s
}

} // verus!
