//! Whole numbers written out in digits.

use vstd::prelude::*;
use vstd::string::StringExecFns;

verus! {

/// The character for the digit `d`: `0` to `9`, then `a` to `f`.
pub open spec fn digit(d: nat) -> char {
    if d < 10 {
        (48 + d) as char
    } else {
        (87 + d) as char
    }
}

/// `n` written in the base `radix`, the most significant digit first and
/// without leading zeros; zero is written `0`.
pub open spec fn numeral(n: nat, radix: nat) -> Seq<char>
    decreases n,
    when radix >= 2
    via numeral_decreases
{
    if n < radix {
        seq![digit(n)]
    } else {
        numeral(n / radix, radix).push(digit(n % radix))
    }
}

#[via_fn]
proof fn numeral_decreases(n: nat, radix: nat) {
    if n >= radix {
        assert(n / radix < n) by (nonlinear_arith)
            requires
                n >= radix,
                radix >= 2,
        ;
    }
}

/// Digits given the least significant first, written out the most
/// significant first.
pub open spec fn spelled(digits: Seq<u8>) -> Seq<char> {
    Seq::new(digits.len(), |i: int| digit(digits[digits.len() - 1 - i] as nat))
}

/// The digit `d` as text.
pub fn digit_text(d: u8) -> (text: &'static str)
    requires
        d < 16,
    ensures
        text@ == seq![digit(d as nat)],
{
    proof {
        reveal_strlit("0");
        reveal_strlit("1");
        reveal_strlit("2");
        reveal_strlit("3");
        reveal_strlit("4");
        reveal_strlit("5");
        reveal_strlit("6");
        reveal_strlit("7");
        reveal_strlit("8");
        reveal_strlit("9");
        reveal_strlit("a");
        reveal_strlit("b");
        reveal_strlit("c");
        reveal_strlit("d");
        reveal_strlit("e");
        reveal_strlit("f");
    }
    match d {
        0 => "0",
        1 => "1",
        2 => "2",
        3 => "3",
        4 => "4",
        5 => "5",
        6 => "6",
        7 => "7",
        8 => "8",
        9 => "9",
        10 => "a",
        11 => "b",
        12 => "c",
        13 => "d",
        14 => "e",
        _ => "f",
    }
}

/// Writes `n` in the base `radix` at the end of `text`.
pub fn write_numeral(text: &mut String, n: u128, radix: u8)
    requires
        2 <= radix <= 16,
    ensures
        final(text)@ == old(text)@ + numeral(n as nat, radix as nat),
{
    let base: u128 = radix as u128;
    let mut digits: Vec<u8> = Vec::new();
    let mut rest: u128 = n;
    while rest >= base
        invariant
            base == radix,
            2 <= radix <= 16,
            numeral(n as nat, radix as nat) == numeral(rest as nat, radix as nat) + spelled(
                digits@,
            ),
            forall|i: int| 0 <= i < digits@.len() ==> digits@[i] < radix,
        decreases rest,
    {
        digits.push((rest % base) as u8);
        rest = rest / base;
    }
    digits.push(rest as u8);
    let mut i: usize = digits.len();
    while i > 0
        invariant
            i <= digits@.len(),
            forall|j: int| 0 <= j < digits@.len() ==> digits@[j] < 16,
            text@ == old(text)@ + spelled(digits@).take(digits@.len() - i),
        decreases i,
    {
        i -= 1;
        text.append(digit_text(digits[i]));
    }
}

} // verus!
