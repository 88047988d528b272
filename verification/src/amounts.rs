//! Fixed-point display of integer token amounts (wei, lamports, MIST, octas).
use vstd::prelude::*;
use crate::text::{
    pow10, spec_decimal, spec_fixed_digits, decimal_string, fixed_digits, pow10_u128,
    lemma_pow10_add, lemma_pow10_step,
};

verus! {

/// The fractional digits shown for `value` base units of a token with
/// `decimals` decimals, truncated to `places` digits.
pub open spec fn spec_shown_fraction(value: nat, decimals: nat, places: nat) -> nat {
    (value % pow10(decimals)) * pow10(places) / pow10(decimals)
}

/// `value` base units written in whole tokens: the integer part, then, when
/// `places` > 0, a point and the first `places` fractional digits (truncated,
/// zero-padded).
pub open spec fn spec_format_units_fixed(value: nat, decimals: nat, places: nat) -> Seq<char> {
    let whole = spec_decimal(value / pow10(decimals));
    if places == 0 {
        whole
    } else {
        whole + seq!['.'] + spec_fixed_digits(spec_shown_fraction(value, decimals, places), places)
    }
}

/// With more decimals than places, the shown digits are a plain quotient.
proof fn lemma_fraction_when_truncating(frac: nat, e: nat, p: nat)
    ensures
        frac * pow10(p) / pow10(e + p) == frac / pow10(e),
{
    lemma_pow10_step(e);
    lemma_pow10_step(p);
    lemma_pow10_add(e, p);
    vstd::arithmetic::div_mod::lemma_div_denominator(
        (frac * pow10(p)) as int,
        pow10(p) as int,
        pow10(e) as int,
    );
    vstd::arithmetic::mul::lemma_mul_is_commutative(pow10(p) as int, pow10(e) as int);
    vstd::arithmetic::div_mod::lemma_div_by_multiple(frac as int, pow10(p) as int);
}

/// With fewer decimals than places, the fraction is padded with zeros and
/// still fits below `10^places`.
proof fn lemma_fraction_when_padding(frac: nat, d: nat, k: nat)
    requires
        frac < pow10(d),
        k + d <= 38,
    ensures
        frac * pow10(k) * pow10(d) / pow10(d) == frac * pow10(k),
        frac * pow10(k) < pow10(k + d),
        frac * pow10(k) * pow10(d) == frac * pow10(k + d),
        pow10(k + d) <= 100000000000000000000000000000000000000,
{
    lemma_pow10_step(k);
    lemma_pow10_step(d);
    lemma_pow10_add(k, d);
    crate::text::lemma_pow10_monotone(k + d, 38);
    assert(pow10(38) == 100000000000000000000000000000000000000) by {
        reveal_with_fuel(pow10, 39);
    }
    vstd::arithmetic::mul::lemma_mul_strict_inequality(frac as int, pow10(d) as int, pow10(k) as int);
    vstd::arithmetic::mul::lemma_mul_is_commutative(pow10(d) as int, pow10(k) as int);
    vstd::arithmetic::mul::lemma_mul_is_associative(frac as int, pow10(k) as int, pow10(d) as int);
    vstd::arithmetic::div_mod::lemma_div_by_multiple((frac * pow10(k)) as int, pow10(d) as int);
}

/// Formats `value` base units of a token with `decimals` decimals to
/// `places` fractional digits, e.g. 1500000000 with 9 decimals and 4 places
/// is "1.5000". Both counts are limited to the powers of ten a `u128` holds.
pub fn format_units_fixed(value: u128, decimals: u32, places: u32) -> (r: String)
    requires
        decimals <= 38,
        places <= 38,
    ensures
        r@ == spec_format_units_fixed(value as nat, decimals as nat, places as nat),
{
    let pd = pow10_u128(decimals);
    proof {
        lemma_pow10_step(decimals as nat);
    }
    let whole = value / pd;
    let frac = value % pd;
    let whole_text = decimal_string(whole);
    if places == 0 {
        return whole_text;
    }
    let ghost d = decimals as nat;
    let ghost p = places as nat;
    let shown: u128 = if places <= decimals {
        let pe = pow10_u128(decimals - places);
        proof {
            lemma_fraction_when_truncating(frac as nat, (decimals - places) as nat, p);
            lemma_pow10_step((decimals - places) as nat);
        }
        frac / pe
    } else {
        let pk = pow10_u128(places - decimals);
        proof {
            lemma_fraction_when_padding(frac as nat, d, (places - decimals) as nat);
        }
        frac * pk
    };
    let frac_text = fixed_digits(shown, places);
    let mut out = whole_text;
    out.append(".");
    out.append(frac_text.as_str());
    proof {
        reveal_strlit(".");
    }
    assert(out@ =~= spec_format_units_fixed(value as nat, decimals as nat, places as nat));
    out
}

} // verus!
