//! Decimal rendering of counters, for the summary line and the persisted
//! frequency table.

use vstd::prelude::*;
use vstd::string::StringExecFns;

verus! {

/// The character for one decimal digit.
pub open spec fn digit_char(d: nat) -> char {
    if d == 0 {
        '0'
    } else if d == 1 {
        '1'
    } else if d == 2 {
        '2'
    } else if d == 3 {
        '3'
    } else if d == 4 {
        '4'
    } else if d == 5 {
        '5'
    } else if d == 6 {
        '6'
    } else if d == 7 {
        '7'
    } else if d == 8 {
        '8'
    } else {
        '9'
    }
}

/// The decimal digits of `n`, most significant first; `0` renders as "0",
/// and no other value has a leading zero.
pub open spec fn dec_rep(n: nat) -> Seq<char>
    decreases n,
{
    if n < 10 {
        seq![digit_char(n)]
    } else {
        dec_rep(n / 10) + seq![digit_char(n % 10)]
    }
}

/// The literal for one decimal digit.
fn digit_str(d: u64) -> (s: &'static str)
    requires
        d < 10,
    ensures
        s@ == seq![digit_char(d as nat)],
{
    proof {
        reveal_strlit("0");
        reveal_strlit("1");
        reveal_strlit("2");
        reveal_strlit("3");
        reveal_strlit("4");
        reveal_strlit("5");
        reveal_strlit("6");
        reveal_strlit("7");
        reveal_strlit("8");
        reveal_strlit("9");
    }
    match d {
        0 => "0",
        1 => "1",
        2 => "2",
        3 => "3",
        4 => "4",
        5 => "5",
        6 => "6",
        7 => "7",
        8 => "8",
        _ => "9",
    }
}

/// Render `n` in decimal, least significant digit built first.
pub fn u64_to_string(n: u64) -> (s: String)
    ensures
        s@ == dec_rep(n as nat),
{
    let mut rest: u64 = n;
    let mut s: String = String::new();
    proof {
        assert(dec_rep(n as nat) =~= dec_rep(n as nat) + s@);
    }
    loop
        invariant_except_break
            dec_rep(n as nat) == dec_rep(rest as nat) + s@,
        ensures
            s@ == dec_rep(n as nat),
        decreases rest,
    {
        let d: u64 = rest % 10;
        let digit: &str = digit_str(d);
        s = String::from_str(digit).concat(s.as_str());
        proof {
            if rest < 10 {
                assert(s@ =~= dec_rep(n as nat));
            } else {
                assert(dec_rep(rest as nat) == dec_rep((rest / 10) as nat) + seq![
                    digit_char((rest % 10) as nat),
                ]);
                assert(dec_rep(n as nat) =~= dec_rep((rest / 10) as nat) + s@);
            }
        }
        rest = rest / 10;
        if rest == 0 {
            break;
        }
    }
    s
}

} // verus!
