//! Decimal rendering of the kernel's numbers, for diagnostics.

use vstd::prelude::*;
use crate::level::Level;

verus! {

/// One decimal digit as text.
fn digit_str(d: u8) -> (s: &'static str)
    requires
        d < 10,
    ensures
        s@.len() == 1,
{
    let s = match d {
        0 => "0",
        1 => "1",
        2 => "2",
        3 => "3",
        4 => "4",
        5 => "5",
        6 => "6",
        7 => "7",
        8 => "8",
        _ => "9",
    };
    proof {
        reveal_strlit("0");
        reveal_strlit("1");
        reveal_strlit("2");
        reveal_strlit("3");
        reveal_strlit("4");
        reveal_strlit("5");
        reveal_strlit("6");
        reveal_strlit("7");
        reveal_strlit("8");
        reveal_strlit("9");
    }
    s
}

/// Renders an unsigned number in decimal.
pub fn uint_string(v: u64) -> (s: String)
    ensures
        s@.len() >= 1,
{
    let mut digits: Vec<u8> = Vec::new();
    let mut x = v;
    digits.push((x % 10) as u8);
    x = x / 10;
    while x > 0
        invariant
            digits@.len() >= 1,
            forall|i: int| 0 <= i < digits@.len() ==> (#[trigger] digits@[i]) < 10,
        decreases x,
    {
        digits.push((x % 10) as u8);
        x = x / 10;
    }
    let mut s = String::from_str("");
    let mut k = digits.len();
    while k > 0
        invariant
            k <= digits@.len(),
            digits@.len() >= 1,
            forall|i: int| 0 <= i < digits@.len() ==> (#[trigger] digits@[i]) < 10,
            s@.len() + k >= digits@.len(),
        decreases k,
    {
        k = k - 1;
        s.append(digit_str(digits[k]));
    }
    s
}

/// Renders a signed number in decimal.
pub fn int_string(v: i64) -> (s: String)
    ensures
        s@.len() >= 1,
{
    if v >= 0 {
        uint_string(v as u64)
    } else if v == i64::MIN {
        let s = String::from_str("-9223372036854775808");
        proof {
            reveal_strlit("-9223372036854775808");
        }
        s
    } else {
        let mut s = String::from_str("-");
        let rest = uint_string((-v) as u64);
        s.append(rest.as_str());
        proof {
            reveal_strlit("-");
        }
        s
    }
}

/// Renders a level: its decimal value in thousandths of a unit, or a dash
/// when it is absent.
pub fn level_string(l: Level) -> (s: String)
    ensures
        s@.len() >= 1,
{
    match l {
        Some(v) => int_string(v),
        None => {
            let s = String::from_str("-");
            proof {
                reveal_strlit("-");
            }
            s
        },
    }
}

} // verus!
