//! Orders stated as a price and a quantity, and the side (bid or ask) of an
//! order.
use crate::assets::{check_fungible_asset, spec_fungible_asset_valid, AccountIdWords, FungibleAssetInfo};
use crate::matching::{spec_matcher_keeps_value, spec_orders_opposed};
use crate::swapp_note::SwapOrder;
use vstd::prelude::*;
use vstd::string::StrSliceExecFns;

verus! {

/// The offered and requested assets of an order for `quantity` units of the
/// base asset (issued by `faucet_a`) at `price` units of the quote asset
/// (issued by `faucet_b`) per unit: a bid offers `quantity * price` of the
/// quote asset for `quantity` of the base asset, an ask the reverse.
pub open spec fn spec_price_order_assets(
    is_bid: bool,
    price: u64,
    quantity: u64,
    faucet_a: AccountIdWords,
    faucet_b: AccountIdWords,
) -> (FungibleAssetInfo, FungibleAssetInfo) {
    let base = FungibleAssetInfo { faucet: faucet_a, amount: quantity };
    let quote = FungibleAssetInfo { faucet: faucet_b, amount: (quantity * price) as u64 };
    if is_bid {
        (quote, base)
    } else {
        (base, quote)
    }
}

/// Both assets are valid fungible assets with canonical faucet words.
pub open spec fn spec_assets_valid(assets: (FungibleAssetInfo, FungibleAssetInfo)) -> bool {
    &&& assets.0.faucet.is_canonical()
    &&& spec_fungible_asset_valid(assets.0.faucet, assets.0.amount)
    &&& assets.1.faucet.is_canonical()
    &&& spec_fungible_asset_valid(assets.1.faucet, assets.1.amount)
}

/// Returns the offered and requested assets of an order at `price` for
/// `quantity` (see [`spec_price_order_assets`]); `None` when
/// `quantity * price` overflows or either asset is not a valid fungible asset.
pub fn price_to_swap_order(
    is_bid: bool,
    price: u64,
    quantity: u64,
    faucet_a: AccountIdWords,
    faucet_b: AccountIdWords,
) -> (r: Option<(FungibleAssetInfo, FungibleAssetInfo)>)
    ensures
        r is Some <==> (quantity * price <= u64::MAX && spec_assets_valid(
            spec_price_order_assets(is_bid, price, quantity, faucet_a, faucet_b),
        )),
        r matches Some(a) ==> a == spec_price_order_assets(
            is_bid,
            price,
            quantity,
            faucet_a,
            faucet_b,
        ),
        r matches Some(a) ==> is_bid ==> a.0.faucet == faucet_b && a.0.amount == quantity * price
            && a.1.faucet == faucet_a && a.1.amount == quantity,
        r matches Some(a) ==> !is_bid ==> a.0.faucet == faucet_a && a.0.amount == quantity
            && a.1.faucet == faucet_b && a.1.amount == quantity * price,
{
    let quote_amount = match quantity.checked_mul(price) {
        Some(q) => q,
        None => return None,
    };
    let base = FungibleAssetInfo { faucet: faucet_a, amount: quantity };
    let quote = FungibleAssetInfo { faucet: faucet_b, amount: quote_amount };
    let (offered, requested) = if is_bid {
        (quote, base)
    } else {
        (base, quote)
    };
    if check_fungible_asset(offered.faucet, offered.amount) && check_fungible_asset(
        requested.faucet,
        requested.amount,
    ) {
        Some((offered, requested))
    } else {
        None
    }
}

/// An ask and a bid built from prices over the same pair of assets cross
/// (request each other's assets, and crossing them costs the matcher
/// nothing) exactly when the bid price is at least the ask price.
pub proof fn lemma_price_orders_cross(
    ask: SwapOrder,
    bid: SwapOrder,
    ask_price: u64,
    ask_quantity: u64,
    bid_price: u64,
    bid_quantity: u64,
    faucet_a: AccountIdWords,
    faucet_b: AccountIdWords,
)
    requires
        ask_quantity > 0,
        bid_quantity > 0,
        ask_quantity * ask_price <= u64::MAX,
        bid_quantity * bid_price <= u64::MAX,
        (ask.offered, ask.requested) == spec_price_order_assets(
            false,
            ask_price,
            ask_quantity,
            faucet_a,
            faucet_b,
        ),
        (bid.offered, bid.requested) == spec_price_order_assets(
            true,
            bid_price,
            bid_quantity,
            faucet_a,
            faucet_b,
        ),
    ensures
        spec_orders_opposed(ask, bid),
        spec_matcher_keeps_value(ask, bid) <==> bid_price >= ask_price,
{
    let qa = ask_quantity as int;
    let qb = bid_quantity as int;
    let pa = ask_price as int;
    let pb = bid_price as int;
    assert(ask.offered.amount * bid.offered.amount == qa * (qb * pb));
    assert(ask.requested.amount * bid.requested.amount == (qa * pa) * qb);
    if pb >= pa {
        assert(qa * (qb * pb) >= (qa * pa) * qb) by (nonlinear_arith)
            requires
                pb >= pa,
                qa > 0,
                qb > 0,
        ;
    } else {
        assert(qa * (qb * pb) < (qa * pa) * qb) by (nonlinear_arith)
            requires
                pb < pa,
                qa > 0,
                qb > 0,
        ;
    }
}

/// Strict lexicographic order of two strings by their characters (the order
/// of `<` on `str`, which compares the UTF-8 bytes).
pub open spec fn spec_str_less(a: Seq<char>, b: Seq<char>) -> bool
    decreases a.len(),
{
    if a.len() == 0 {
        b.len() > 0
    } else if b.len() == 0 {
        false
    } else if a[0] != b[0] {
        (a[0] as u32) < (b[0] as u32)
    } else {
        spec_str_less(a.drop_first(), b.drop_first())
    }
}

proof fn lemma_str_less_skip(a: Seq<char>, b: Seq<char>, i: int)
    requires
        0 <= i <= a.len(),
        i <= b.len(),
        forall|k: int| 0 <= k < i ==> a[k] == b[k],
    ensures
        spec_str_less(a, b) == spec_str_less(a.skip(i), b.skip(i)),
    decreases i,
{
    if i > 0 {
        assert(a[0] == b[0]);
        assert(a.drop_first().skip(i - 1) =~= a.skip(i));
        assert(b.drop_first().skip(i - 1) =~= b.skip(i));
        lemma_str_less_skip(a.drop_first(), b.drop_first(), i - 1);
    } else {
        assert(a.skip(0) =~= a);
        assert(b.skip(0) =~= b);
    }
}

/// The string order is decided at the first position where two strings
/// differ, by the smaller character; where one string is a proper prefix of
/// the other, the shorter comes first; and no string comes before itself.
pub proof fn lemma_str_less_decided(a: Seq<char>, b: Seq<char>, i: int)
    requires
        0 <= i <= a.len(),
        i <= b.len(),
        forall|k: int| 0 <= k < i ==> a[k] == b[k],
    ensures
        i < a.len() && i < b.len() && a[i] != b[i] ==> (spec_str_less(a, b) <==> (a[i] as u32) < (
        b[i] as u32)),
        i == a.len() ==> (spec_str_less(a, b) <==> i < b.len()),
        !spec_str_less(a, a),
{
    lemma_str_less_skip(a, b, i);
    lemma_str_less_skip(a, a, a.len() as int);
    if i < a.len() && i < b.len() {
        assert(a.skip(i)[0] == a[i]);
        assert(b.skip(i)[0] == b[i]);
    }
}

/// Whether `a < b` as strings (see [`spec_str_less`]).
pub fn str_less(a: &str, b: &str) -> (r: bool)
    ensures
        r == spec_str_less(a@, b@),
{
    let la = a.unicode_len();
    let lb = b.unicode_len();
    let mut i: usize = 0;
    while i < la && i < lb
        invariant
            la == a@.len(),
            lb == b@.len(),
            i <= la,
            i <= lb,
            forall|k: int| 0 <= k < i ==> a@[k] == b@[k],
        decreases la - i,
    {
        let ca = a.get_char(i);
        let cb = b.get_char(i);
        if ca != cb {
            proof {
                lemma_str_less_skip(a@, b@, i as int);
                assert(a@.skip(i as int)[0] == ca);
                assert(b@.skip(i as int)[0] == cb);
            }
            return (ca as u32) < (cb as u32);
        }
        i = i + 1;
    }
    proof {
        lemma_str_less_skip(a@, b@, i as int);
    }
    i < lb
}

/// Whether an order is a bid (buys the base asset with the quote asset).
/// With the quote asset's faucet known, an order is a bid when it offers the
/// quote asset; otherwise an order is taken to be a bid when the hex form of
/// its offered faucet sorts before that of its requested faucet.
pub open spec fn spec_is_bid(
    quote_faucet: Option<AccountIdWords>,
    offered_faucet: AccountIdWords,
    offered_faucet_hex: Seq<char>,
    requested_faucet_hex: Seq<char>,
) -> bool {
    match quote_faucet {
        Some(q) => offered_faucet == q,
        None => spec_str_less(offered_faucet_hex, requested_faucet_hex),
    }
}

/// Classifies an order as bid or ask (see [`spec_is_bid`]).
pub fn order_is_bid(
    quote_faucet: Option<AccountIdWords>,
    offered_faucet: AccountIdWords,
    offered_faucet_hex: &str,
    requested_faucet_hex: &str,
) -> (r: bool)
    ensures
        r == spec_is_bid(quote_faucet, offered_faucet, offered_faucet_hex@, requested_faucet_hex@),
{
    match quote_faucet {
        Some(q) => offered_faucet == q,
        None => str_less(offered_faucet_hex, requested_faucet_hex),
    }
}

} // verus!
