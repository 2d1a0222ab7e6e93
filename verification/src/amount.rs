//! Amounts of money as whole numbers of units.
//!
//! The ledger counts money in units of one ten-thousandth, so that an amount
//! is an integer and sums are exact. An operation holds an unsigned amount;
//! balances are signed. Figures that are reported are rounded to hundredths,
//! that is to multiples of [`UNITS_PER_CENT`].

use vstd::prelude::*;
use vstd::string::*;
use crate::text::{decimal_text, digit_char, digit_text, push_decimal};

verus! {

/// The number of units in one whole of the currency.
pub const UNITS_PER_ONE: u64 = 10_000;

/// The number of units in one hundredth of the currency.
pub const UNITS_PER_CENT: u64 = 100;

/// Two balances that differ by less than this many units (a thousandth of
/// the currency) count as equal when a balance is adjusted.
pub const ADJUST_TOLERANCE: u64 = 10;

/// The largest sum that the amounts of one ledger may reach.
pub const MAX_TOTAL: u64 = 0x7fff_ffff_ffff_ffff;

/// The multiple of a hundredth that is nearest to `value`; a value halfway
/// between two goes to the one further from zero.
pub open spec fn rounded_to_cents(value: int) -> int {
    if value >= 0 {
        ((value + 50) / 100) * 100
    } else {
        -(((-value + 50) / 100) * 100)
    }
}

/// Whether `value` is a whole number of hundredths.
pub open spec fn is_whole_cents(value: int) -> bool {
    value % 100 == 0
}

/// The digits of the fraction `frac`, from the digit worth `scale` units
/// down, without trailing zeros.
pub open spec fn fraction_text(frac: nat, scale: nat) -> Seq<char>
    decreases scale,
{
    if frac == 0 || scale == 0 {
        Seq::empty()
    } else {
        seq![digit_char((frac / scale) as int)] + fraction_text(frac % scale, scale / 10)
    }
}

/// The decimal text of an amount: the whole part, then, where the amount is
/// not whole, a point and up to four decimals without trailing zeros.
pub open spec fn amount_text(units: nat) -> Seq<char> {
    if units % 10_000 == 0 {
        decimal_text(units / 10_000)
    } else {
        decimal_text(units / 10_000) + seq!['.'] + fraction_text(units % 10_000, 1000)
    }
}

/// Rounding gives a whole number of hundredths that is within half a
/// hundredth of the value, keeps a value that is whole already, and keeps
/// the sign.
pub proof fn lemma_rounded_to_cents(value: int)
    ensures
        is_whole_cents(rounded_to_cents(value)),
        -50 <= rounded_to_cents(value) - value <= 50,
        is_whole_cents(value) ==> rounded_to_cents(value) == value,
        rounded_to_cents(-value) == -rounded_to_cents(value),
        value >= 0 ==> rounded_to_cents(value) >= 0,
{
}

/// Appends the decimal text of `units` to `out`.
pub fn push_amount(out: &mut String, units: u64)
    ensures
        final(out)@ == old(out)@ + amount_text(units as nat),
{
    push_decimal(out, units / 10_000);
    let mut frac: u64 = units % 10_000;
    if frac != 0 {
        out.append(".");
        proof {
            reveal_strlit(".");
            assert("."@ =~= seq!['.']);
        }
        let ghost head = out@;
        let mut scale: u64 = 1000;
        while frac != 0 && scale != 0
            invariant
                scale > 0 ==> frac < scale * 10,
                scale == 0 ==> frac == 0,
                scale == 1000 || scale == 100 || scale == 10 || scale == 1 || scale == 0,
                out@ + fraction_text(frac as nat, scale as nat) == head + fraction_text(
                    (units % 10_000) as nat,
                    1000,
                ),
            decreases scale,
        {
            out.append(digit_text(frac / scale));
            assert(out@ + fraction_text((frac % scale) as nat, (scale / 10) as nat) =~= head
                + fraction_text((units % 10_000) as nat, 1000));
            frac = frac % scale;
            scale = scale / 10;
        }
        assert(fraction_text(frac as nat, scale as nat) =~= Seq::<char>::empty());
        assert(out@ =~= old(out)@ + amount_text(units as nat));
    } else {
        assert(out@ =~= old(out)@ + amount_text(units as nat));
    }
}

} // verus!
