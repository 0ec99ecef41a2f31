//! String helpers: decimal rendering of durations and length-limited
//! display of strings, with the rendering itself verified character by
//! character.
use vstd::prelude::*;

verus! {

/// The decimal digit character for `d` (which must be below ten).
pub open spec fn digit_char(d: nat) -> char {
    if d == 0 {
        '0'
    } else if d == 1 {
        '1'
    } else if d == 2 {
        '2'
    } else if d == 3 {
        '3'
    } else if d == 4 {
        '4'
    } else if d == 5 {
        '5'
    } else if d == 6 {
        '6'
    } else if d == 7 {
        '7'
    } else if d == 8 {
        '8'
    } else {
        '9'
    }
}

/// The decimal digits of `n`, most significant first, without leading
/// zeros (a single zero for zero).
pub open spec fn dec_spec(n: nat) -> Seq<char>
    decreases n,
{
    if n < 10 {
        seq![digit_char(n)]
    } else {
        dec_spec(n / 10) + seq![digit_char(n % 10)]
    }
}

/// `n` rendered as two decimal digits, zero-padded (`n` below 100).
pub open spec fn pad2_spec(n: nat) -> Seq<char> {
    seq![digit_char(n / 10), digit_char(n % 10)]
}

/// The single-character string for the decimal digit `d`.
fn digit_str(d: u8) -> (r: &'static str)
    requires
        d < 10,
    ensures
        r@ == seq![digit_char(d as nat)],
{
    let r: &'static str = match d {
        0 => "0",
        1 => "1",
        2 => "2",
        3 => "3",
        4 => "4",
        5 => "5",
        6 => "6",
        7 => "7",
        8 => "8",
        _ => "9",
    };
    proof {
        reveal_strlit("0");
        reveal_strlit("1");
        reveal_strlit("2");
        reveal_strlit("3");
        reveal_strlit("4");
        reveal_strlit("5");
        reveal_strlit("6");
        reveal_strlit("7");
        reveal_strlit("8");
        reveal_strlit("9");
        assert(r@ =~= seq![digit_char(d as nat)]);
    }
    r
}

/// Render `n` in decimal.
pub fn to_decimal(n: u128) -> (r: String)
    ensures
        r@ == dec_spec(n as nat),
    decreases n,
{
    if n < 10 {
        String::from_str(digit_str(n as u8))
    } else {
        let mut s = to_decimal(n / 10);
        s.append(digit_str((n % 10) as u8));
        proof {
            assert(s@ =~= dec_spec(n as nat));
        }
        s
    }
}

/// How a duration of `millis` milliseconds is displayed: below one second,
/// the integral milliseconds followed by `ms`; otherwise the seconds to two
/// decimal places (rounded to the nearest hundredth, half away from zero)
/// followed by `s`.
pub open spec fn format_duration_spec(millis: nat) -> Seq<char> {
    if millis < 1000 {
        dec_spec(millis) + "ms"@
    } else {
        let hundredths = (millis + 5) / 10;
        dec_spec(hundredths / 100) + "."@ + pad2_spec(hundredths % 100) + "s"@
    }
}

/// Display a duration of `millis` milliseconds in a human-readable form.
pub fn format_duration(millis: u128) -> (r: String)
    requires
        millis < u128::MAX - 5,
    ensures
        r@ == format_duration_spec(millis as nat),
{
    if millis < 1000 {
        let mut s = to_decimal(millis);
        s.append("ms");
        s
    } else {
        let hundredths = (millis + 5) / 10;
        let mut s = to_decimal(hundredths / 100);
        s.append(".");
        let frac = hundredths % 100;
        proof {
            assert(hundredths % 100 < 100) by (nonlinear_arith)
                requires
                    hundredths >= 0,
            ;
        }
        s.append(digit_str((frac / 10) as u8));
        s.append(digit_str((frac % 10) as u8));
        s.append("s");
        proof {
            assert(s@ =~= format_duration_spec(millis as nat));
        }
        s
    }
}

/// How a string is shortened to at most `max_len` characters: left alone
/// when short enough, else cut and finished with an ellipsis.
pub open spec fn truncate_spec(s: Seq<char>, max_len: int) -> Seq<char> {
    if s.len() <= max_len {
        s
    } else {
        let keep = if max_len < 3 {
            0int
        } else {
            max_len - 3
        };
        s.subrange(0, keep) + "..."@
    }
}

/// Shorten a string to at most `max_len` characters, ending a shortened
/// string with `...`.
pub fn truncate(s: &str, max_len: usize) -> (r: String)
    ensures
        r@ == truncate_spec(s@, max_len as int),
{
    let n = s.unicode_len();
    if n <= max_len {
        s.to_owned()
    } else {
        let keep: usize = if max_len < 3 {
            0
        } else {
            max_len - 3
        };
        let head = s.substring_char(0, keep);
        let mut r = head.to_owned();
        r.append("...");
        r
    }
}

} // verus!
