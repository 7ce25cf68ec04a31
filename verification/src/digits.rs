//! Decimal rendering of the numeric literals that may appear as computed
//! member keys.

use vstd::prelude::*;
use vstd::string::StringExecFns;

verus! {

pub open spec fn dec_digit_char(d: int) -> char {
    if d == 0 {
        '0'
    } else if d == 1 {
        '1'
    } else if d == 2 {
        '2'
    } else if d == 3 {
        '3'
    } else if d == 4 {
        '4'
    } else if d == 5 {
        '5'
    } else if d == 6 {
        '6'
    } else if d == 7 {
        '7'
    } else if d == 8 {
        '8'
    } else {
        '9'
    }
}

/// The usual decimal digits of `n`, most significant first, no leading zero
/// except for `n == 0` itself.
pub open spec fn dec_str_nat(n: nat) -> Seq<char>
    decreases n,
{
    if n < 10 {
        seq![dec_digit_char(n as int)]
    } else {
        dec_str_nat(n / 10).push(dec_digit_char((n % 10) as int))
    }
}

/// Decimal rendering of a signed integer.
pub open spec fn dec_str_int(n: int) -> Seq<char> {
    if n < 0 {
        seq!['-'] + dec_str_nat((-n) as nat)
    } else {
        dec_str_nat(n as nat)
    }
}

/// One decimal digit as text.
fn digit_str(d: u8) -> (r: &'static str)
    requires
        d < 10,
    ensures
        r@ == seq![dec_digit_char(d as int)],
{
    proof {
        reveal_strlit("0");
        reveal_strlit("1");
        reveal_strlit("2");
        reveal_strlit("3");
        reveal_strlit("4");
        reveal_strlit("5");
        reveal_strlit("6");
        reveal_strlit("7");
        reveal_strlit("8");
        reveal_strlit("9");
    }
    match d {
        0 => "0",
        1 => "1",
        2 => "2",
        3 => "3",
        4 => "4",
        5 => "5",
        6 => "6",
        7 => "7",
        8 => "8",
        _ => "9",
    }
}

pub open spec fn digit_chars_rev(digits: Seq<u8>) -> Seq<char> {
    digits.reverse().map_values(|d: u8| dec_digit_char(d as int))
}

/// Renders `n` in decimal.
#[verifier::loop_isolation(false)]
pub fn u64_to_string(n: u64) -> (r: String)
    ensures
        r@ == dec_str_nat(n as nat),
{
    let mut digits: Vec<u8> = Vec::new();
    let mut m: u64 = n;
    loop
        invariant
            forall|j: int| 0 <= j < digits@.len() ==> digits@[j] < 10,
            m > 0 ==> dec_str_nat(n as nat) == dec_str_nat(m as nat) + digit_chars_rev(digits@),
            m == 0 && digits@.len() > 0 ==> dec_str_nat(n as nat) == digit_chars_rev(digits@),
            m == 0 && digits@.len() == 0 ==> n == 0,
            m <= n,
        decreases m, (if digits@.len() == 0 { 1int } else { 0int }),
    {
        if m == 0 && digits.len() > 0 {
            break;
        }
        proof {
            if m == 0 {
                assert(n == 0);
                assert(dec_str_nat(n as nat) == dec_str_nat(m as nat) + digit_chars_rev(
                    digits@,
                ));
            }
        }
        let d: u8 = (m % 10) as u8;
        let ghost before = digits@;
        digits.push(d);
        proof {
            assert(digits@.reverse() =~= seq![d] + before.reverse());
            assert(digit_chars_rev(digits@) =~= seq![dec_digit_char(d as int)]
                + digit_chars_rev(before));
        }
        let m2 = m / 10;
        proof {
            if m2 > 0 {
                assert(m >= 10);
                assert(dec_str_nat(m as nat) == dec_str_nat((m as nat) / 10).push(
                    dec_digit_char(((m as nat) % 10) as int),
                ));
                assert(dec_str_nat(m as nat) + digit_chars_rev(before) =~= dec_str_nat(
                    m2 as nat,
                ) + digit_chars_rev(digits@));
            } else {
                if m < 10 {
                    assert(dec_str_nat(m as nat) =~= seq![dec_digit_char(m as int)]);
                } else {
                    assert(false);
                }
                if digits@.len() > 0 && before.len() == 0 {
                    assert(dec_str_nat(m as nat) + digit_chars_rev(before) =~= digit_chars_rev(
                        digits@,
                    ));
                }
                if before.len() > 0 {
                    assert(dec_str_nat(m as nat) + digit_chars_rev(before) =~= digit_chars_rev(
                        digits@,
                    ));
                }
            }
        }
        m = m2;
    }
    let mut s = String::new();
    let k = digits.len();
    let mut i: usize = k;
    while i > 0
        invariant
            i <= k,
            k == digits@.len(),
            forall|j: int| 0 <= j < digits@.len() ==> digits@[j] < 10,
            s@ == digit_chars_rev(digits@).take((k - i) as int),
        decreases i,
    {
        i = i - 1;
        s.append(digit_str(digits[i]));
        proof {
            assert(digits@.reverse()[(k - 1 - i) as int] == digits@[i as int]);
            assert(digit_chars_rev(digits@)[(k - 1 - i) as int] == dec_digit_char(
                digits@[i as int] as int,
            ));
            assert(s@ =~= digit_chars_rev(digits@).take((k - i) as int));
        }
    }
    proof {
        assert(digit_chars_rev(digits@).take(k as int) =~= digit_chars_rev(digits@));
    }
    s
}

/// Renders `n` in decimal, with a leading minus sign when negative.
pub fn i64_to_string(n: i64) -> (r: String)
    ensures
        r@ == dec_str_int(n as int),
{
    if n >= 0 {
        u64_to_string(n as u64)
    } else {
        let m: u64 = ((-(n + 1)) as u64) + 1;
        proof {
            assert(m as nat == (-(n as int)) as nat);
        }
        let body = u64_to_string(m);
        let mut s = <String as StringExecFns>::from_str("-");
        proof {
            reveal_strlit("-");
            assert(s@ =~= seq!['-']);
        }
        s.append(body.as_str());
        s
    }
}

} // verus!
