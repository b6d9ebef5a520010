//! Human-readable renderings of the indicators: `RSI(<period>)` and
//! `SSMA(<period>)`.

use vstd::prelude::*;
use vstd::string::StringExecFns;

use crate::indicators::relative_strength_index::RelativeStrengthIndex;
use crate::indicators::smoothed_simple_moving_average::SmoothedSimpleMovingAverage;

verus! {

/// The character of one decimal digit.
pub open spec fn digit_char_s(d: nat) -> char {
    if d == 0 {
        '0'
    } else if d == 1 {
        '1'
    } else if d == 2 {
        '2'
    } else if d == 3 {
        '3'
    } else if d == 4 {
        '4'
    } else if d == 5 {
        '5'
    } else if d == 6 {
        '6'
    } else if d == 7 {
        '7'
    } else if d == 8 {
        '8'
    } else {
        '9'
    }
}

/// The decimal numeral of `n`, most significant digit first.
pub open spec fn dec_seq_s(n: nat) -> Seq<char>
    decreases n,
{
    if n < 10 {
        seq![digit_char_s(n)]
    } else {
        dec_seq_s(n / 10).push(digit_char_s(n % 10))
    }
}

/// The rendering of a Relative Strength Index with period `p`.
pub open spec fn rsi_label_s(p: nat) -> Seq<char> {
    "RSI("@ + dec_seq_s(p) + ")"@
}

/// The rendering of a Smoothed Simple Moving Average with period `p`.
pub open spec fn ssma_label_s(p: nat) -> Seq<char> {
    "SSMA("@ + dec_seq_s(p) + ")"@
}

fn digit_str(d: u64) -> (s: &'static str)
    requires
        d < 10,
    ensures
        s@ == seq![digit_char_s(d as nat)],
{
    match d {
        0 => {
            proof {
                reveal_strlit("0");
                assert("0"@ =~= seq!['0']);
            }
            "0"
        },
        1 => {
            proof {
                reveal_strlit("1");
                assert("1"@ =~= seq!['1']);
            }
            "1"
        },
        2 => {
            proof {
                reveal_strlit("2");
                assert("2"@ =~= seq!['2']);
            }
            "2"
        },
        3 => {
            proof {
                reveal_strlit("3");
                assert("3"@ =~= seq!['3']);
            }
            "3"
        },
        4 => {
            proof {
                reveal_strlit("4");
                assert("4"@ =~= seq!['4']);
            }
            "4"
        },
        5 => {
            proof {
                reveal_strlit("5");
                assert("5"@ =~= seq!['5']);
            }
            "5"
        },
        6 => {
            proof {
                reveal_strlit("6");
                assert("6"@ =~= seq!['6']);
            }
            "6"
        },
        7 => {
            proof {
                reveal_strlit("7");
                assert("7"@ =~= seq!['7']);
            }
            "7"
        },
        8 => {
            proof {
                reveal_strlit("8");
                assert("8"@ =~= seq!['8']);
            }
            "8"
        },
        _ => {
            proof {
                reveal_strlit("9");
                assert("9"@ =~= seq!['9']);
            }
            "9"
        },
    }
}

/// Renders `n` as its decimal numeral.
fn dec_string(n: u64) -> (s: String)
    ensures
        s@ == dec_seq_s(n as nat),
    decreases n,
{
    if n < 10 {
        String::from_str(digit_str(n))
    } else {
        let mut s = dec_string(n / 10);
        let d = digit_str(n % 10);
        s.append(d);
        proof {
            assert(dec_seq_s((n / 10) as nat).push(digit_char_s((n % 10) as nat)) =~= dec_seq_s(
                (n / 10) as nat,
            ) + seq![digit_char_s((n % 10) as nat)]);
        }
        s
    }
}

impl RelativeStrengthIndex {
    /// Renders this instance as `RSI(<period>)`.
    pub fn to_string(&self) -> (s: String)
        ensures
            s@ == rsi_label_s(self.period as nat),
    {
        let mut s = String::from_str("RSI(");
        let num = dec_string(self.period as u64);
        s.append(num.as_str());
        s.append(")");
        s
    }
}

impl SmoothedSimpleMovingAverage {
    /// Renders this instance as `SSMA(<period>)`.
    pub fn to_string(&self) -> (s: String)
        ensures
            s@ == ssma_label_s(self.period as nat),
    {
        let mut s = String::from_str("SSMA(");
        let num = dec_string(self.period as u64);
        s.append(num.as_str());
        s.append(")");
        s
    }
}

} // verus!
