//! Decimal text of the numbers that alert messages show.

use vstd::prelude::*;

verus! {

/// The character of the digit `d`.
pub open spec fn digit_char(d: nat) -> char {
    if d == 0 {
        '0'
    } else if d == 1 {
        '1'
    } else if d == 2 {
        '2'
    } else if d == 3 {
        '3'
    } else if d == 4 {
        '4'
    } else if d == 5 {
        '5'
    } else if d == 6 {
        '6'
    } else if d == 7 {
        '7'
    } else if d == 8 {
        '8'
    } else {
        '9'
    }
}

/// `n` in decimal digits, without leading zeros.
pub open spec fn decimal(n: nat) -> Seq<char>
    decreases n,
{
    if n < 10 {
        seq![digit_char(n)]
    } else {
        decimal(n / 10).push(digit_char(n % 10))
    }
}

/// The magnitude of `v`.
pub open spec fn magnitude(v: i64) -> nat {
    if v < 0 {
        (-v) as nat
    } else {
        v as nat
    }
}

/// The number of tenths nearest to `v` thousandths, in magnitude; a half
/// counts upwards.
pub open spec fn tenths(v: i64) -> nat {
    (magnitude(v) + 50) / 100
}

/// A reading of `v` thousandths with one decimal: a minus sign where the
/// rounded reading is below zero, the whole part, a point, the tenths.
pub open spec fn one_decimal(v: i64) -> Seq<char> {
    let sign = if v < 0 && tenths(v) > 0 {
        seq!['-']
    } else {
        Seq::<char>::empty()
    };
    sign + decimal(tenths(v) / 10) + seq!['.'] + seq![digit_char(tenths(v) % 10)]
}

/// A score of `z` hundredths with two decimals.
pub open spec fn two_decimals(z: nat) -> Seq<char> {
    decimal(z / 100) + seq!['.'] + seq![digit_char((z / 10) % 10)] + seq![digit_char(z % 10)]
}

/// The digit `d` as text.
pub fn digit_str(d: u64) -> (s: &'static str)
    requires
        d < 10,
    ensures
        s@ == seq![digit_char(d as nat)],
{
    proof {
        reveal_strlit("0");
        reveal_strlit("1");
        reveal_strlit("2");
        reveal_strlit("3");
        reveal_strlit("4");
        reveal_strlit("5");
        reveal_strlit("6");
        reveal_strlit("7");
        reveal_strlit("8");
        reveal_strlit("9");
    }
    let s = if d == 0 {
        "0"
    } else if d == 1 {
        "1"
    } else if d == 2 {
        "2"
    } else if d == 3 {
        "3"
    } else if d == 4 {
        "4"
    } else if d == 5 {
        "5"
    } else if d == 6 {
        "6"
    } else if d == 7 {
        "7"
    } else if d == 8 {
        "8"
    } else {
        "9"
    };
    assert(s@ =~= seq![digit_char(d as nat)]);
    s
}

/// `n` in decimal digits, without leading zeros.
pub fn render_decimal(n: u64) -> (s: String)
    ensures
        s@ == decimal(n as nat),
    decreases n,
{
    if n < 10 {
        String::from_str(digit_str(n))
    } else {
        let head = render_decimal(n / 10);
        let s = head.concat(digit_str(n % 10));
        assert(s@ =~= decimal(n as nat));
        s
    }
}

/// A reading of `v` thousandths with one decimal.
pub fn render_one_decimal(v: i64) -> (s: String)
    ensures
        s@ == one_decimal(v),
{
    let mag: u64 = if v < 0 {
        (-(v as i128)) as u64
    } else {
        v as u64
    };
    let t: u64 = (mag + 50) / 100;
    proof {
        reveal_strlit("-");
        reveal_strlit("");
        reveal_strlit(".");
    }
    let sign = if v < 0 && t > 0 {
        "-"
    } else {
        ""
    };
    let s = String::from_str(sign).concat(render_decimal(t / 10).as_str()).concat(".").concat(
        digit_str(t % 10),
    );
    assert(s@ =~= one_decimal(v));
    s
}

/// A score of `z` hundredths with two decimals.
pub fn render_two_decimals(z: u64) -> (s: String)
    ensures
        s@ == two_decimals(z as nat),
{
    proof {
        reveal_strlit(".");
    }
    let s = render_decimal(z / 100).concat(".").concat(digit_str((z / 10) % 10)).concat(
        digit_str(z % 10),
    );
    assert(s@ =~= two_decimals(z as nat));
    s
}

} // verus!
