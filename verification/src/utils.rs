//! A color code for a rate of actions.

use vstd::prelude::*;
use vstd::arithmetic::div_mod::lemma_div_denominator;
use vstd::string::StringExecFns;
use crate::text::{numeral, write_numeral};

verus! {

/// Two to the power of 53. Up to here a value with 53 significant bits holds
/// every whole number; from here on only every second, then every fourth, and
/// so on.
pub const PRECISION_LIMIT: u64 = 0x20_0000_0000_0000;

/// The distance between neighbouring values with 53 significant bits, at
/// `value`: one up to [`PRECISION_LIMIT`], and twice as much each time the
/// value doubles from there.
pub open spec fn spacing(value: nat) -> nat
    decreases value,
{
    if value < PRECISION_LIMIT {
        1
    } else {
        2 * spacing(value / 2)
    }
}

/// `value` rounded to 53 significant bits: the nearest multiple of
/// [`spacing`], and of two that are equally near the even one.
pub open spec fn rounded(value: nat) -> nat {
    let unit = spacing(value);
    let below = value / unit;
    let rest = value % unit;
    if 2 * rest > unit || (2 * rest == unit && below % 2 == 1) {
        (below + 1) * unit
    } else {
        below * unit
    }
}

/// The first figure of the code: a sixty-fourth of the rounded value, and
/// 127 where that is more.
pub open spec fn coarse(value: nat) -> nat {
    if rounded(value) / 64 > 127 {
        127
    } else {
        rounded(value) / 64
    }
}

/// The second figure of the code: what is left over the first, in quarters.
pub open spec fn fine(value: nat) -> nat {
    (rounded(value) % 64) / 4
}

/// The code for `value`: both figures in hexadecimal, then four zeros.
pub open spec fn apm_hex(value: nat) -> Seq<char> {
    numeral(coarse(value), 16) + numeral(fine(value), 16) + seq!['0', '0', '0', '0']
}

/// Halving a value that has lost bits halves its spacing.
proof fn lemma_spacing_step(value: nat, unit: nat)
    requires
        unit > 0,
        value / unit >= PRECISION_LIMIT,
    ensures
        spacing(value / unit) == 2 * spacing(value / (2 * unit)),
{
    lemma_div_denominator(value as int, unit as int, 2);
}

/// Finds [`spacing`].
fn spacing_of(value: u64) -> (unit: u64)
    ensures
        unit == spacing(value as nat),
        1 <= unit <= 4096,
{
    let mut unit: u64 = 1;
    while value / unit >= PRECISION_LIMIT
        invariant
            1 <= unit <= 4096,
            spacing(value as nat) == unit * spacing(value as nat / unit as nat),
        decreases 4096 - unit,
    {
        proof {
            lemma_spacing_step(value as nat, unit as nat);
            let inner = spacing(value as nat / (2 * unit) as nat);
            assert(unit * (2 * inner) == (2 * unit) * inner) by (nonlinear_arith);
            assert(unit < 2048) by (nonlinear_arith)
                requires
                    value / unit >= 0x20_0000_0000_0000,
                    value <= 0xffff_ffff_ffff_ffff,
                    unit >= 1,
            ;
        }
        unit = 2 * unit;
    }
    proof {
        assert(unit * 1 == unit) by (nonlinear_arith);
    }
    unit
}

/// Computes [`rounded`].
fn round(value: u64) -> (r: u128)
    ensures
        r == rounded(value as nat),
{
    let unit = spacing_of(value);
    let below = value / unit;
    let rest = value % unit;
    let whole: u128 = if 2 * rest > unit || (2 * rest == unit && below % 2 == 1) {
        below as u128 + 1
    } else {
        below as u128
    };
    assert(whole * unit <= u128::MAX) by (nonlinear_arith)
        requires
            whole <= 0x1_0000_0000_0000_0000,
            unit <= 4096,
    ;
    whole * unit as u128
}

/// The color code for `value` actions per minute: `value` over 64 in
/// hexadecimal, capped at `7f`, then the remainder in quarters as one
/// hexadecimal digit, then `0000`. The value is taken with 53 significant
/// bits, so from [`PRECISION_LIMIT`] on its lowest bits are rounded away
/// first.
pub fn apm_to_hex(value: u64) -> (code: String)
    ensures
        code@ == apm_hex(value as nat),
{
    let r = round(value);
    let first: u128 = if r / 64 > 127 {
        127
    } else {
        r / 64
    };
    let second: u128 = (r % 64) / 4;
    let mut code = String::new();
    write_numeral(&mut code, first, 16);
    write_numeral(&mut code, second, 16);
    proof {
        reveal_strlit("0000");
    }
    code.append("0000");
    code
}

} // verus!
