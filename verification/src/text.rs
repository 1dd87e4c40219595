//! Decimal rendering of integers, as bytes and as text.

use vstd::prelude::*;

verus! {

/// The ASCII byte of the decimal digit `d`.
pub open spec fn digit_byte(d: nat) -> u8 {
    (48 + d) as u8
}

/// The decimal rendering of `n`, most significant digit first, with no
/// leading zero.
pub open spec fn decimal_bytes(n: nat) -> Seq<u8>
    decreases n,
{
    if n < 10 {
        seq![digit_byte(n)]
    } else {
        decimal_bytes(n / 10).push(digit_byte(n % 10))
    }
}

/// The characters of a sequence of ASCII bytes.
pub open spec fn ascii_chars(bytes: Seq<u8>) -> Seq<char> {
    bytes.map_values(|b: u8| b as char)
}

/// The decimal rendering of `n` as text.
pub open spec fn decimal_text(n: nat) -> Seq<char> {
    ascii_chars(decimal_bytes(n))
}

/// A decimal digit byte.
pub open spec fn is_digit(b: u8) -> bool {
    48 <= b <= 57
}

/// The number that a run of decimal digits spells.
pub open spec fn digits_value(b: Seq<u8>) -> nat
    decreases b.len(),
{
    if b.len() == 0 {
        0
    } else {
        digits_value(b.drop_last()) * 10 + (b.last() - 48) as nat
    }
}

/// Ten to the power `k`.
pub open spec fn pow10(k: nat) -> nat
    decreases k,
{
    if k == 0 {
        1
    } else {
        10 * pow10((k - 1) as nat)
    }
}

/// The decimal rendering of `n` is a run of digits that spells `n`, with no
/// leading zero, and no longer than `k` digits when `n < 10^k`.
pub proof fn lemma_decimal(n: nat, k: nat)
    requires
        k >= 1,
        n < pow10(k),
    ensures
        decimal_bytes(n).len() >= 1,
        decimal_bytes(n).len() <= k,
        forall|i: int| 0 <= i < decimal_bytes(n).len() ==> is_digit(#[trigger] decimal_bytes(n)[i]),
        decimal_bytes(n).len() == 1 || decimal_bytes(n)[0] != 48,
        n >= 1 ==> decimal_bytes(n)[0] != 48,
        digits_value(decimal_bytes(n)) == n,
    decreases n,
{
    if n >= 10 {
        assert(k >= 2) by {
            if k == 1 {
                assert(pow10(1) == 10) by {
                    reveal_with_fuel(pow10, 2);
                }
            }
        }
        assert(n / 10 < pow10((k - 1) as nat));
        lemma_decimal(n / 10, (k - 1) as nat);
        let prefix = decimal_bytes(n / 10);
        let b = decimal_bytes(n);
        assert(b == prefix.push(digit_byte(n % 10)));
        assert(b.drop_last() =~= prefix);
        assert forall|i: int| 0 <= i < b.len() implies is_digit(#[trigger] b[i]) by {
            if i < prefix.len() {
                assert(b[i] == prefix[i]);
            }
        }
        assert(b[0] == prefix[0]);
        assert(b.last() == digit_byte(n % 10));
        assert((b.last() - 48) as nat == n % 10);
        assert(digits_value(b) == digits_value(prefix) * 10 + n % 10);
        assert(n == (n / 10) * 10 + n % 10);
    } else {
        let b = decimal_bytes(n);
        assert(b.drop_last() =~= Seq::<u8>::empty());
        assert(digits_value(b) == digits_value(b.drop_last()) * 10 + (b.last() - 48) as nat);
    }
}

/// The decimal rendering of a `u32` is at most ten digits.
pub proof fn lemma_decimal_u32(n: u32)
    ensures
        decimal_bytes(n as nat).len() >= 1,
        decimal_bytes(n as nat).len() <= 10,
        forall|i: int|
            0 <= i < decimal_bytes(n as nat).len() ==> is_digit(#[trigger] decimal_bytes(n as nat)[i]),
        decimal_bytes(n as nat).len() == 1 || decimal_bytes(n as nat)[0] != 48,
        digits_value(decimal_bytes(n as nat)) == n,
{
    assert(pow10(10) == 10000000000) by {
        reveal_with_fuel(pow10, 11);
    }
    lemma_decimal(n as nat, 10);
}

/// Appends the decimal rendering of `n` to `out`.
pub fn push_decimal(out: &mut Vec<u8>, n: u32)
    ensures
        final(out)@ == old(out)@ + decimal_bytes(n as nat),
    decreases n,
{
    if n >= 10 {
        push_decimal(out, n / 10);
    }
    out.push(48 + (n % 10) as u8);
    proof {
        if n >= 10 {
            assert(old(out)@ + decimal_bytes(n as nat) =~= old(out)@ + decimal_bytes((n / 10) as nat)
                + seq![digit_byte((n % 10) as nat)]);
        } else {
            assert(old(out)@ + decimal_bytes(n as nat) =~= old(out)@ + seq![digit_byte(n as nat)]);
        }
    }
}

/// A one-character string holding the decimal digit `d`.
fn digit_str(d: u32) -> (r: &'static str)
    requires
        d < 10,
    ensures
        r@ == seq![digit_byte(d as nat) as char],
{
    match d {
        0 => {
            proof { reveal_strlit("0"); }
            "0"
        },
        1 => {
            proof { reveal_strlit("1"); }
            "1"
        },
        2 => {
            proof { reveal_strlit("2"); }
            "2"
        },
        3 => {
            proof { reveal_strlit("3"); }
            "3"
        },
        4 => {
            proof { reveal_strlit("4"); }
            "4"
        },
        5 => {
            proof { reveal_strlit("5"); }
            "5"
        },
        6 => {
            proof { reveal_strlit("6"); }
            "6"
        },
        7 => {
            proof { reveal_strlit("7"); }
            "7"
        },
        8 => {
            proof { reveal_strlit("8"); }
            "8"
        },
        _ => {
            proof { reveal_strlit("9"); }
            "9"
        },
    }
}

/// Appends the decimal rendering of `n` to the text `out`.
pub fn append_decimal(out: &mut String, n: u32)
    ensures
        final(out)@ == old(out)@ + decimal_text(n as nat),
    decreases n,
{
    if n >= 10 {
        append_decimal(out, n / 10);
    }
    out.append(digit_str(n % 10));
    proof {
        if n >= 10 {
            assert(decimal_text(n as nat) =~= decimal_text((n / 10) as nat) + seq![
                digit_byte((n % 10) as nat) as char,
            ]);
        } else {
            assert(decimal_text(n as nat) =~= seq![digit_byte(n as nat) as char]);
        }
    }
}

} // verus!
