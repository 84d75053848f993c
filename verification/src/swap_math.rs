//! Partial-fill arithmetic of a SWAPP order.
use vstd::prelude::*;

verus! {

/// `a - b`, clamped to zero (what `u64::saturating_sub` returns).
pub open spec fn spec_saturating_sub(a: int, b: int) -> int {
    if a > b {
        a - b
    } else {
        0
    }
}

/// The offered amount that a fill of `filled` units of the requested asset
/// releases, before it is capped at the offered amount: the exact
/// `offered * filled / requested`, rounded down.
pub open spec fn spec_raw_amount_out(offered: u64, requested: u64, filled: u64) -> int {
    (offered * filled) / (requested as int)
}

/// The three amounts that a partial fill produces:
/// (offered amount sent out, offered amount left, requested amount left).
pub open spec fn spec_partial_swapp(offered: u64, requested: u64, filled: u64) -> (int, int, int) {
    let raw = spec_raw_amount_out(offered, requested, filled);
    let out = if raw > offered { offered as int } else { raw };
    (out, spec_saturating_sub(offered as int, raw), spec_saturating_sub(requested as int, filled as int))
}

/// Computes how much of the offered asset a fill of `requested_asset_filled`
/// units of the requested asset sends out, and what remains of the order.
///
/// `amount_out = offered * filled / requested` (the exact product, the
/// quotient rounded down and capped at `offered`);
/// the remaining offered amount is `offered - amount_out` and the remaining
/// requested amount is `requested - filled`, both saturating at zero.
///
/// Returns `(amount_out, new_offered_amount, new_requested_amount)`.
pub fn compute_partial_swapp(
    offered_swapp_asset_amount: u64,
    requested_swapp_asset_amount: u64,
    requested_asset_filled: u64,
) -> (r: (u64, u64, u64))
    requires
        requested_swapp_asset_amount > 0,
    ensures
        (r.0 as int, r.1 as int, r.2 as int) == spec_partial_swapp(
            offered_swapp_asset_amount,
            requested_swapp_asset_amount,
            requested_asset_filled,
        ),
{
    proof {
        assert(offered_swapp_asset_amount * requested_asset_filled <= u64::MAX * u64::MAX)
            by (nonlinear_arith)
            requires
                offered_swapp_asset_amount <= u64::MAX,
                requested_asset_filled <= u64::MAX,
        ;
    }
    let product = (offered_swapp_asset_amount as u128) * (requested_asset_filled as u128);
    let raw = product / (requested_swapp_asset_amount as u128);
    let (amount_out_offered, new_offered_asset_amount) = if raw >= offered_swapp_asset_amount as u128 {
        (offered_swapp_asset_amount, 0u64)
    } else {
        let out = raw as u64;
        (out, offered_swapp_asset_amount - out)
    };
    let new_requested_asset_amount = requested_swapp_asset_amount.saturating_sub(
        requested_asset_filled,
    );
    (amount_out_offered, new_offered_asset_amount, new_requested_asset_amount)
}


proof fn lemma_div_mul_le(x: int, d: int)
    requires
        x >= 0,
        d > 0,
    ensures
        (x / d) * d <= x,
        x / d >= 0,
{
    vstd::arithmetic::div_mod::lemma_fundamental_div_mod(x, d);
    vstd::arithmetic::div_mod::lemma_div_pos_is_pos(x, d);
    vstd::arithmetic::div_mod::lemma_mod_pos_bound(x, d);
    let q = x / d;
    let m = x % d;
    assert(q * d <= x) by (nonlinear_arith)
        requires
            x == d * q + m,
            m >= 0,
    ;
}

proof fn lemma_div_le_when_prod_le(a: int, f: int, r: int)
    requires
        a >= 0,
        0 <= f <= r,
        r > 0,
    ensures
        (a * f) / r <= a,
{
    assert(a * f <= a * r) by (nonlinear_arith)
        requires
            a >= 0,
            f <= r,
    ;
    vstd::arithmetic::div_mod::lemma_div_is_ordered(a * f, a * r, r);
    vstd::arithmetic::div_mod::lemma_div_multiples_vanish(a, r);
    assert(a * r == r * a) by (nonlinear_arith);
}

/// A fill never releases more than its pro-rata share of the offered amount,
/// and never more than the offered amount itself:
/// `amount_out * requested <= offered * filled` and `amount_out <= offered`.
pub proof fn lemma_partial_swapp_pro_rata(offered: u64, requested: u64, filled: u64)
    requires
        requested > 0,
    ensures
        spec_partial_swapp(offered, requested, filled).0 * requested <= offered * filled,
        0 <= spec_partial_swapp(offered, requested, filled).0 <= offered,
{
    let raw = spec_raw_amount_out(offered, requested, filled);
    lemma_div_mul_le(offered * filled, requested as int);
    let out = spec_partial_swapp(offered, requested, filled).0;
    if raw > offered {
        assert(out == offered);
        assert(offered * requested <= raw * requested) by (nonlinear_arith)
            requires
                raw > offered,
                requested > 0,
        ;
    }
    assert(out * requested <= raw * requested) by (nonlinear_arith)
        requires
            out <= raw,
            requested > 0,
    ;
}

/// When the fill does not exceed the requested amount, no unit is created
/// or lost:
/// `amount_out + new_offered == offered` and `filled + new_requested == requested`.
pub proof fn lemma_partial_swapp_conserves(offered: u64, requested: u64, filled: u64)
    requires
        requested > 0,
        filled <= requested,
    ensures
        spec_partial_swapp(offered, requested, filled).0 + spec_partial_swapp(
            offered,
            requested,
            filled,
        ).1 == offered,
        filled + spec_partial_swapp(offered, requested, filled).2 == requested,
{
    lemma_div_le_when_prod_le(offered as int, filled as int, requested as int);
    lemma_div_mul_le(offered * filled, requested as int);
}

/// Filling the whole requested amount releases the whole offered amount and
/// leaves nothing of the order.
pub proof fn lemma_partial_swapp_full_fill(offered: u64, requested: u64)
    requires
        requested > 0,
    ensures
        spec_partial_swapp(offered, requested, requested) == (offered as int, 0int, 0int),
{
    vstd::arithmetic::div_mod::lemma_div_multiples_vanish(offered as int, requested as int);
    assert(offered * requested == requested * offered) by (nonlinear_arith);
}

} // verus!
