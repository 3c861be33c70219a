//! Decimal rendering of numbers for finding and violation texts.
use vstd::prelude::*;
use vstd::string::*;

verus! {

/// The character of decimal digit `d` (`0 <= d < 10`).
pub open spec fn digit_char(d: nat) -> char {
    (d + 48) as char
}

/// The decimal digits of `n`, most significant first, with no leading zero.
pub open spec fn decimal(n: nat) -> Seq<char>
    decreases n,
{
    if n < 10 {
        seq![digit_char(n)]
    } else {
        decimal(n / 10).push(digit_char(n % 10))
    }
}

/// The one-character text of decimal digit `d`.
fn digit_text(d: u64) -> (s: &'static str)
    requires
        d < 10,
    ensures
        s@ == seq![digit_char(d as nat)],
{
    match d {
        0 => {
            proof {
                reveal_strlit("0");
            }
            "0"
        },
        1 => {
            proof {
                reveal_strlit("1");
            }
            "1"
        },
        2 => {
            proof {
                reveal_strlit("2");
            }
            "2"
        },
        3 => {
            proof {
                reveal_strlit("3");
            }
            "3"
        },
        4 => {
            proof {
                reveal_strlit("4");
            }
            "4"
        },
        5 => {
            proof {
                reveal_strlit("5");
            }
            "5"
        },
        6 => {
            proof {
                reveal_strlit("6");
            }
            "6"
        },
        7 => {
            proof {
                reveal_strlit("7");
            }
            "7"
        },
        8 => {
            proof {
                reveal_strlit("8");
            }
            "8"
        },
        _ => {
            proof {
                reveal_strlit("9");
            }
            "9"
        },
    }
}

/// The decimal digits of `n`, most significant first, as `u64`'s `Display`
/// writes them.
pub(crate) fn u64_text(n: u64) -> (s: String)
    ensures
        s@ == decimal(n as nat),
    decreases n,
{
    if n < 10 {
        String::from_str(digit_text(n))
    } else {
        let mut s = u64_text(n / 10);
        s.append(digit_text(n % 10));
        s
    }
}

/// The decimal digits of `n`, as `usize`'s `Display` writes them.
pub(crate) fn usize_text(n: usize) -> (s: String)
    ensures
        s@ == decimal(n as nat),
{
    u64_text(n as u64)
}

/// `prefix`, then the decimal digits of `x`, then `middle`, then those of `y`.
pub fn two_numbers(prefix: &str, x: u64, middle: &str, y: u64) -> (s: String)
    ensures
        s@ == prefix@ + decimal(x as nat) + middle@ + decimal(y as nat),
{
    let mut s = String::from_str(prefix);
    let xs = u64_text(x);
    s.append(xs.as_str());
    s.append(middle);
    let ys = u64_text(y);
    s.append(ys.as_str());
    s
}

/// `prefix`, then the decimal digits of `n`, then `suffix`.
pub fn one_number(prefix: &str, n: u64, suffix: &str) -> (s: String)
    ensures
        s@ == prefix@ + decimal(n as nat) + suffix@,
{
    let mut s = String::from_str(prefix);
    let ns = u64_text(n);
    s.append(ns.as_str());
    s.append(suffix);
    s
}

} // verus!
