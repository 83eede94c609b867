//! Elapsed and total playback time as text.

use vstd::prelude::*;
use vstd::string::StringExecFns;

verus! {

/// The decimal digit `d`.
pub open spec fn digit_char(d: nat) -> char {
    (48 + d) as char
}

/// The decimal numeral of `n`, without leading zeros.
pub open spec fn decimal(n: nat) -> Seq<char>
    decreases n,
{
    if n < 10 {
        seq![digit_char(n)]
    } else {
        decimal(n / 10).push(digit_char(n % 10))
    }
}

/// The decimal numeral of `n`, padded with a zero to at least two digits.
pub open spec fn two_digits(n: nat) -> Seq<char> {
    if n < 10 {
        seq!['0'] + decimal(n)
    } else {
        decimal(n)
    }
}

/// `t` seconds as minutes and seconds: `MM:SS`.
pub open spec fn clock(t: nat) -> Seq<char> {
    two_digits(t / 60) + seq![':'] + two_digits(t % 60)
}

fn digit_str(d: u64) -> (r: &'static str)
    requires
        d < 10,
    ensures
        r@ == seq![digit_char(d as nat)],
{
    proof {
        reveal_strlit("0");
        reveal_strlit("1");
        reveal_strlit("2");
        reveal_strlit("3");
        reveal_strlit("4");
        reveal_strlit("5");
        reveal_strlit("6");
        reveal_strlit("7");
        reveal_strlit("8");
        reveal_strlit("9");
    }
    match d {
        0 => "0",
        1 => "1",
        2 => "2",
        3 => "3",
        4 => "4",
        5 => "5",
        6 => "6",
        7 => "7",
        8 => "8",
        _ => "9",
    }
}

fn append_decimal(s: &mut String, n: u64)
    ensures
        final(s)@ == old(s)@ + decimal(n as nat),
    decreases n,
{
    if n >= 10 {
        append_decimal(s, n / 10);
    }
    s.append(digit_str(n % 10));
    assert(final(s)@ =~= old(s)@ + decimal(n as nat));
}

fn append_two_digits(s: &mut String, n: u64)
    ensures
        final(s)@ == old(s)@ + two_digits(n as nat),
{
    if n < 10 {
        proof {
            reveal_strlit("0");
        }
        s.append("0");
    }
    append_decimal(s, n);
    assert(final(s)@ =~= old(s)@ + two_digits(n as nat));
}

/// `current` and `total` seconds as `MM:SS/MM:SS`.
pub fn format_time(current: u64, total: u64) -> (r: String)
    ensures
        r@ == clock(current as nat) + seq!['/'] + clock(total as nat),
{
    let mut s = String::new();
    proof {
        reveal_strlit(":");
        reveal_strlit("/");
    }
    append_two_digits(&mut s, current / 60);
    s.append(":");
    append_two_digits(&mut s, current % 60);
    s.append("/");
    append_two_digits(&mut s, total / 60);
    s.append(":");
    append_two_digits(&mut s, total % 60);
    assert(s@ =~= clock(current as nat) + seq!['/'] + clock(total as nat));
    s
}

} // verus!
