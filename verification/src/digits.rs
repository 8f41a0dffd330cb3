//! Decimal rendering of integers, used for collision suffixes in note file
//! names and for calendar dates in digest file names.

use vstd::prelude::*;
use vstd::string::StringExecFns;

verus! {

/// The decimal digit character for a value below ten.
pub open spec fn digit_char(d: int) -> char {
    ((48 + d) as u8) as char
}

/// The decimal digits of a non-negative integer, most significant first,
/// without sign or padding.
pub open spec fn dec_digits(n: int) -> Seq<char>
    decreases n,
{
    if n <= 9 {
        seq![digit_char(n)]
    } else {
        dec_digits(n / 10).push(digit_char(n % 10))
    }
}

/// A decimal rendering holds at least one digit.
pub proof fn lemma_dec_digits_len(n: int)
    ensures
        dec_digits(n).len() >= 1,
    decreases n,
{
    if n > 9 {
        lemma_dec_digits_len(n / 10);
    }
}

/// Digit characters are distinct for distinct values below ten.
proof fn lemma_digit_char_injective(a: int, b: int)
    requires
        0 <= a <= 9,
        0 <= b <= 9,
        digit_char(a) == digit_char(b),
    ensures
        a == b,
{
    assert(digit_char(a) as u32 == 48 + a);
    assert(digit_char(b) as u32 == 48 + b);
}

/// Distinct non-negative integers render to distinct digit sequences.
pub proof fn lemma_dec_digits_injective(a: int, b: int)
    requires
        0 <= a,
        0 <= b,
        dec_digits(a) == dec_digits(b),
    ensures
        a == b,
    decreases a,
{
    lemma_dec_digits_len(a);
    lemma_dec_digits_len(b);
    if a <= 9 && b <= 9 {
        assert(dec_digits(a)[0] == digit_char(a));
        assert(dec_digits(b)[0] == digit_char(b));
        lemma_digit_char_injective(a, b);
    } else if a <= 9 {
        lemma_dec_digits_len(b / 10);
        assert(dec_digits(b).len() >= 2);
    } else if b <= 9 {
        lemma_dec_digits_len(a / 10);
        assert(dec_digits(a).len() >= 2);
    } else {
        assert(dec_digits(a).last() == digit_char(a % 10));
        assert(dec_digits(b).last() == digit_char(b % 10));
        lemma_digit_char_injective(a % 10, b % 10);
        assert(dec_digits(a).drop_last() =~= dec_digits(a / 10));
        assert(dec_digits(b).drop_last() =~= dec_digits(b / 10));
        lemma_dec_digits_injective(a / 10, b / 10);
        assert(a == 10 * (a / 10) + a % 10) by {
            vstd::arithmetic::div_mod::lemma_fundamental_div_mod(a, 10);
        }
        assert(b == 10 * (b / 10) + b % 10) by {
            vstd::arithmetic::div_mod::lemma_fundamental_div_mod(b, 10);
        }
    }
}

/// The one-character string for a decimal digit value.
fn digit_str(d: u64) -> (r: &'static str)
    requires
        d <= 9,
    ensures
        r@ =~= seq![digit_char(d as int)],
{
    proof {
        reveal_strlit("0");
        reveal_strlit("1");
        reveal_strlit("2");
        reveal_strlit("3");
        reveal_strlit("4");
        reveal_strlit("5");
        reveal_strlit("6");
        reveal_strlit("7");
        reveal_strlit("8");
        reveal_strlit("9");
    }
    match d {
        0 => "0",
        1 => "1",
        2 => "2",
        3 => "3",
        4 => "4",
        5 => "5",
        6 => "6",
        7 => "7",
        8 => "8",
        _ => "9",
    }
}

/// Renders a non-negative integer in decimal, without sign or padding.
pub fn u64_to_string(x: u64) -> (s: String)
    ensures
        s@ == dec_digits(x as int),
{
    let mut v: u64 = x;
    let mut tail: String = String::new();
    proof {
        assert(dec_digits(x as int) =~= dec_digits(x as int) + tail@);
    }
    loop
        invariant
            dec_digits(x as int) == dec_digits(v as int) + tail@,
        decreases v,
    {
        let d = v % 10;
        let mut out = String::from_str(digit_str(d));
        out.append(tail.as_str());
        if v <= 9 {
            proof {
                assert(dec_digits(v as int) =~= seq![digit_char(d as int)]);
                assert(out@ =~= dec_digits(v as int) + tail@);
            }
            return out;
        }
        proof {
            assert(dec_digits(v as int) == dec_digits(v as int / 10).push(
                digit_char(v as int % 10),
            ));
            assert(dec_digits(v as int / 10).push(digit_char(v as int % 10)) =~= dec_digits(
                v as int / 10,
            ) + seq![digit_char(d as int)]);
            assert(v as int / 10 == (v / 10) as int);
            assert(dec_digits(x as int) =~= dec_digits((v / 10) as int) + out@);
        }
        tail = out;
        v = v / 10;
    }
}

} // verus!
