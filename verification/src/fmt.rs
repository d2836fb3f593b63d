//! Rendering fixed-point scalars and small integers as decimal text.
//!
//! Coordinate and size attributes are rendered with exactly four decimal
//! places (rounding the two spare millionth digits half away from zero);
//! colour components are rendered as plain decimals or two hex digits.

use vstd::prelude::*;
use vstd::string::StringExecFns;

verus! {

/// The decimal digit character for a value below ten.
pub open spec fn digit_char(d: int) -> char {
    if d == 0 {
        '0'
    } else if d == 1 {
        '1'
    } else if d == 2 {
        '2'
    } else if d == 3 {
        '3'
    } else if d == 4 {
        '4'
    } else if d == 5 {
        '5'
    } else if d == 6 {
        '6'
    } else if d == 7 {
        '7'
    } else if d == 8 {
        '8'
    } else {
        '9'
    }
}

/// The decimal digits of a natural number, most significant first.
pub open spec fn dec_digits(n: nat) -> Seq<char>
    decreases n,
{
    if n < 10 {
        seq![digit_char(n as int)]
    } else {
        dec_digits(n / 10).push(digit_char((n % 10) as int))
    }
}

/// The hexadecimal digit character for a value below sixteen.
pub open spec fn hex_char(d: int) -> char {
    if d < 10 {
        digit_char(d)
    } else if d == 10 {
        'a'
    } else if d == 11 {
        'b'
    } else if d == 12 {
        'c'
    } else if d == 13 {
        'd'
    } else if d == 14 {
        'e'
    } else {
        'f'
    }
}

/// A byte as exactly two lowercase hex digits.
pub open spec fn hex2_digits(n: nat) -> Seq<char> {
    seq![hex_char(n as int / 16), hex_char(n as int % 16)]
}

/// A fixed-point scalar as text with exactly four decimal places: an
/// optional minus sign, the whole part, a point, and four fraction digits.
pub open spec fn fixed4_digits(v: int) -> Seq<char> {
    let a = if v >= 0 {
        v
    } else {
        -v
    };
    let r = (a + 50) / 100;
    let whole = r / 10000;
    let frac = r % 10000;
    let sign: Seq<char> = if v < 0 {
        seq!['-']
    } else {
        Seq::empty()
    };
    sign + dec_digits(whole as nat) + seq!['.'] + pad4_digits(frac as nat)
}

/// Four decimal digits, left-padded with zeros.
pub open spec fn pad4_digits(n: nat) -> Seq<char> {
    if n < 10 {
        seq!['0', '0', '0'] + dec_digits(n)
    } else if n < 100 {
        seq!['0', '0'] + dec_digits(n)
    } else if n < 1000 {
        seq!['0'] + dec_digits(n)
    } else {
        dec_digits(n)
    }
}

/// The decimal digit below ten, as a string slice.
fn digit_str(d: u64) -> (s: &'static str)
    requires
        d < 10,
    ensures
        s@ == seq![digit_char(d as int)],
{
    if d == 0 {
        proof {
            reveal_strlit("0");
        }
        "0"
    } else if d == 1 {
        proof {
            reveal_strlit("1");
        }
        "1"
    } else if d == 2 {
        proof {
            reveal_strlit("2");
        }
        "2"
    } else if d == 3 {
        proof {
            reveal_strlit("3");
        }
        "3"
    } else if d == 4 {
        proof {
            reveal_strlit("4");
        }
        "4"
    } else if d == 5 {
        proof {
            reveal_strlit("5");
        }
        "5"
    } else if d == 6 {
        proof {
            reveal_strlit("6");
        }
        "6"
    } else if d == 7 {
        proof {
            reveal_strlit("7");
        }
        "7"
    } else if d == 8 {
        proof {
            reveal_strlit("8");
        }
        "8"
    } else {
        proof {
            reveal_strlit("9");
        }
        "9"
    }
}

/// The hex digit below sixteen, as a string slice.
fn hex_digit_str(d: u64) -> (s: &'static str)
    requires
        d < 16,
    ensures
        s@ == seq![hex_char(d as int)],
{
    if d < 10 {
        digit_str(d)
    } else if d == 10 {
        proof {
            reveal_strlit("a");
        }
        "a"
    } else if d == 11 {
        proof {
            reveal_strlit("b");
        }
        "b"
    } else if d == 12 {
        proof {
            reveal_strlit("c");
        }
        "c"
    } else if d == 13 {
        proof {
            reveal_strlit("d");
        }
        "d"
    } else if d == 14 {
        proof {
            reveal_strlit("e");
        }
        "e"
    } else {
        proof {
            reveal_strlit("f");
        }
        "f"
    }
}

/// Append the decimal digits of a natural number to a string.
pub fn push_u64(out: &mut String, n: u64)
    ensures
        final(out)@ == old(out)@ + dec_digits(n as nat),
    decreases n,
{
    if n < 10 {
        out.append(digit_str(n));
    } else {
        push_u64(out, n / 10);
        out.append(digit_str(n % 10));
        proof {
            assert(out@ =~= old(out)@ + dec_digits(n as nat));
        }
    }
}

/// The decimal digits of a natural number as a new string.
pub fn u64_to_string(n: u64) -> (s: String)
    ensures
        s@ == dec_digits(n as nat),
{
    let mut s = String::new();
    push_u64(&mut s, n);
    proof {
        assert(s@ =~= dec_digits(n as nat));
    }
    s
}

/// Append a byte as exactly two lowercase hex digits.
pub fn push_hex2(out: &mut String, n: u8)
    ensures
        final(out)@ == old(out)@ + hex2_digits(n as nat),
{
    out.append(hex_digit_str((n / 16) as u64));
    out.append(hex_digit_str((n % 16) as u64));
    proof {
        assert(out@ =~= old(out)@ + hex2_digits(n as nat));
    }
}

/// Append a fixed-point scalar with exactly four decimal places.
pub fn push_fixed4(out: &mut String, v: i64)
    ensures
        final(out)@ == old(out)@ + fixed4_digits(v as int),
{
    let a: u128 = crate::fixed::abs_u128(v);
    let r: u128 = (a + 50) / 100;
    let whole: u64 = (r / 10000) as u64;
    let frac: u64 = (r % 10000) as u64;
    proof {
        assert(r / 10000 < 0x1_0000_0000_0000_0000u128);
        assert(whole as nat == ((a + 50) / 100) as nat / 10000);
        assert(frac < 10000);
    }
    if v < 0 {
        proof {
            reveal_strlit("-");
        }
        out.append("-");
    }
    push_u64(out, whole);
    proof {
        reveal_strlit(".");
    }
    out.append(".");
    if frac < 10 {
        proof {
            reveal_strlit("000");
        }
        out.append("000");
    } else if frac < 100 {
        proof {
            reveal_strlit("00");
        }
        out.append("00");
    } else if frac < 1000 {
        proof {
            reveal_strlit("0");
        }
        out.append("0");
    }
    push_u64(out, frac);
    proof {
        reveal_strlit("000");
        reveal_strlit("00");
        reveal_strlit("0");
        reveal_strlit("-");
        reveal_strlit(".");
        assert(("000")@ =~= seq!['0', '0', '0']);
        assert(("00")@ =~= seq!['0', '0']);
        assert(("0")@ =~= seq!['0']);
        assert(("-")@ =~= seq!['-']);
        assert((".")@ =~= seq!['.']);
        assert(out@ =~= old(out)@ + fixed4_digits(v as int));
    }
}

/// A fixed-point scalar with exactly four decimal places, as a new string.
pub fn fixed4_to_string(v: i64) -> (s: String)
    ensures
        s@ == fixed4_digits(v as int),
{
    let mut s = String::new();
    push_fixed4(&mut s, v);
    proof {
        assert(s@ =~= fixed4_digits(v as int));
    }
    s
}

} // verus!
