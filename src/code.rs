use vstd::prelude::*;

verus! {

/// The largest number of digits a code may have: 10^9 still fits in a `u32`.
pub const MAX_DIGITS: u8 = 9;

/// Ten to the power `n`.
pub open spec fn pow10(n: nat) -> nat
    decreases n,
{
    if n == 0 {
        1
    } else {
        10 * pow10((n - 1) as nat)
    }
}

/// The character of decimal digit `d`.
pub open spec fn digit_char(d: nat) -> char
    recommends
        d < 10,
{
    ((d + '0' as nat) as u8) as char
}

/// The last `width` decimal digits of `n`, most significant first; when
/// `n < 10^width` this is `n` written in `width` digits with leading zeros.
pub open spec fn padded_decimal(n: nat, width: nat) -> Seq<char>
    decreases width,
{
    if width == 0 {
        Seq::empty()
    } else {
        seq![digit_char((n / pow10((width - 1) as nat)) % 10)] + padded_decimal(
            n,
            (width - 1) as nat,
        )
    }
}

pub proof fn lemma_pow10_positive(n: nat)
    ensures
        pow10(n) >= 1,
    decreases n,
{
    if n > 0 {
        lemma_pow10_positive((n - 1) as nat);
    }
}

proof fn lemma_pow10_monotone(a: nat, b: nat)
    requires
        a <= b,
    ensures
        pow10(a) <= pow10(b),
    decreases b,
{
    if a < b {
        lemma_pow10_monotone(a, (b - 1) as nat);
        lemma_pow10_positive((b - 1) as nat);
    }
}

/// Ten to the power `digits`, for a digit count that keeps it in a `u32`.
pub fn pow10_u32(digits: u8) -> (r: u32)
    requires
        digits <= MAX_DIGITS,
    ensures
        r as nat == pow10(digits as nat),
        r >= 1,
{
    let mut r: u32 = 1;
    let mut i: u8 = 0;
    while i < digits
        invariant
            i <= digits <= MAX_DIGITS,
            r as nat == pow10(i as nat),
            r >= 1,
        decreases digits - i,
    {
        proof {
            lemma_pow10_monotone(i as nat, 8);
            reveal_with_fuel(pow10, 9);
        }
        r = r * 10;
        i = i + 1;
    }
    r
}

/// The string of decimal digit `d`.
fn digit_str(d: u32) -> (r: &'static str)
    requires
        d < 10,
    ensures
        r@ == seq![digit_char(d as nat)],
{
    match d {
        0 => {
            proof {
                reveal_strlit("0");
            }
            "0"
        },
        1 => {
            proof {
                reveal_strlit("1");
            }
            "1"
        },
        2 => {
            proof {
                reveal_strlit("2");
            }
            "2"
        },
        3 => {
            proof {
                reveal_strlit("3");
            }
            "3"
        },
        4 => {
            proof {
                reveal_strlit("4");
            }
            "4"
        },
        5 => {
            proof {
                reveal_strlit("5");
            }
            "5"
        },
        6 => {
            proof {
                reveal_strlit("6");
            }
            "6"
        },
        7 => {
            proof {
                reveal_strlit("7");
            }
            "7"
        },
        8 => {
            proof {
                reveal_strlit("8");
            }
            "8"
        },
        _ => {
            proof {
                reveal_strlit("9");
            }
            "9"
        },
    }
}

/// Writes `code` in exactly `width` decimal digits, padded on the left with `0`.
/// A code too wide for `width` is refused by the precondition, never cut.
pub fn format_code(code: u32, width: usize) -> (r: String)
    requires
        (code as nat) < pow10(width as nat),
    ensures
        r@ == padded_decimal(code as nat, width as nat),
        r@.len() == width,
{
    let mut s = String::new();
    let mut n: u32 = code;
    let mut j: usize = 0;
    assert((code as nat) / pow10(0) == code as nat) by {
        assert(pow10(0) == 1);
        vstd::arithmetic::div_mod::lemma_div_basics(code as int);
    }
    while j < width
        invariant
            j <= width,
            n as nat == (code as nat) / pow10(j as nat),
            s@ == padded_decimal(code as nat, j as nat),
            s@.len() == j,
        decreases width - j,
    {
        let d = digit_str(n % 10);
        let t = String::from_str(d).concat(s.as_str());
        s = t;
        proof {
            lemma_pow10_positive(j as nat);
            vstd::arithmetic::div_mod::lemma_div_denominator(code as int, pow10(j as nat) as int, 10);
            assert(pow10((j + 1) as nat) == pow10(j as nat) * 10);
        }
        n = n / 10;
        j = j + 1;
    }
    s
}

/// A one-time code together with the number of digits it is shown in.
pub struct HotpOutput {
    pub code: u32,
    pub length: usize,
}

impl HotpOutput {
    /// The code fits in its number of digits.
    pub open spec fn wf(&self) -> bool {
        (self.code as nat) < pow10(self.length as nat)
    }

    /// The code written in exactly `length` digits, with leading zeros.
    pub fn formatted(&self) -> (r: String)
        requires
            self.wf(),
        ensures
            r@ == padded_decimal(self.code as nat, self.length as nat),
            r@.len() == self.length,
    {
        format_code(self.code, self.length)
    }
}

} // verus!
