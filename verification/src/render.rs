//! Decimal rendering of fixed-point values for audit strings.
//!
//! A micro-unit value `v` renders as the signed decimal of `v / SCALE`
//! with exactly three fractional digits, truncated toward zero
//! (`900_000` renders as `"0.900"`, `-1_500` as `"-0.001"`).

use vstd::prelude::*;
use vstd::string::StringExecFns;

use crate::model::SCALE;

verus! {

/// The decimal digit character for `d` in `0..10`.
pub open spec fn digit_char(d: int) -> char {
    if d == 0 {
        '0'
    } else if d == 1 {
        '1'
    } else if d == 2 {
        '2'
    } else if d == 3 {
        '3'
    } else if d == 4 {
        '4'
    } else if d == 5 {
        '5'
    } else if d == 6 {
        '6'
    } else if d == 7 {
        '7'
    } else if d == 8 {
        '8'
    } else {
        '9'
    }
}

/// Decimal digit sequence of a non-negative integer, no leading zeros
/// (a single `'0'` for zero).
pub open spec fn dec_seq(n: int) -> Seq<char>
    decreases n,
{
    if n < 10 {
        seq![digit_char(n)]
    } else {
        dec_seq(n / 10).push(digit_char(n % 10))
    }
}

/// Exactly-three-digit decimal of `m` in `0..1000` (zero-padded).
pub open spec fn pad3_seq(m: int) -> Seq<char> {
    seq![digit_char(m / 100), digit_char((m / 10) % 10), digit_char(m % 10)]
}

/// Fixed-point value rendered at three decimals, truncated toward zero.
pub open spec fn fixed3_seq(v: int) -> Seq<char> {
    let a = if v >= 0 {
        v
    } else {
        -v
    };
    let sign: Seq<char> = if v < 0 {
        seq!['-']
    } else {
        Seq::empty()
    };
    sign + dec_seq(a / SCALE as int) + seq!['.'] + pad3_seq((a % SCALE as int) / 1000)
}

/// The one-character string for a decimal digit.
fn digit_str(d: u64) -> (r: &'static str)
    requires
        d < 10,
    ensures
        r@ =~= seq![digit_char(d as int)],
{
    if d == 0 {
        proof {
            reveal_strlit("0");
        }
        "0"
    } else if d == 1 {
        proof {
            reveal_strlit("1");
        }
        "1"
    } else if d == 2 {
        proof {
            reveal_strlit("2");
        }
        "2"
    } else if d == 3 {
        proof {
            reveal_strlit("3");
        }
        "3"
    } else if d == 4 {
        proof {
            reveal_strlit("4");
        }
        "4"
    } else if d == 5 {
        proof {
            reveal_strlit("5");
        }
        "5"
    } else if d == 6 {
        proof {
            reveal_strlit("6");
        }
        "6"
    } else if d == 7 {
        proof {
            reveal_strlit("7");
        }
        "7"
    } else if d == 8 {
        proof {
            reveal_strlit("8");
        }
        "8"
    } else {
        proof {
            reveal_strlit("9");
        }
        "9"
    }
}

/// Decimal string of a non-negative integer.
pub fn dec_string(n: u64) -> (s: String)
    ensures
        s@ == dec_seq(n as int),
    decreases n,
{
    if n < 10 {
        digit_str(n).to_owned()
    } else {
        let mut s = dec_string(n / 10);
        s.append(digit_str(n % 10));
        proof {
            assert(dec_seq((n / 10) as int) + seq![digit_char((n % 10) as int)] =~= dec_seq(
                n as int,
            ));
        }
        s
    }
}

/// Render a micro-unit value at three decimals, truncated toward zero.
pub fn fixed3_string(v: i64) -> (s: String)
    requires
        v > i64::MIN,
    ensures
        s@ == fixed3_seq(v as int),
{
    let a: u64 = if v < 0 {
        (-v) as u64
    } else {
        v as u64
    };
    let mut s = String::new();
    if v < 0 {
        proof {
            reveal_strlit("-");
        }
        s.append("-");
        proof {
            assert(s@ =~= seq!['-']);
        }
    }
    let whole = dec_string(a / (SCALE as u64));
    s.append(whole.as_str());
    proof {
        reveal_strlit(".");
    }
    s.append(".");
    let milli = (a % (SCALE as u64)) / 1000;
    s.append(digit_str(milli / 100));
    s.append(digit_str((milli / 10) % 10));
    s.append(digit_str(milli % 10));
    proof {
        assert(s@ =~= fixed3_seq(v as int));
    }
    s
}

} // verus!
