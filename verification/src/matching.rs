//! Crossing two SWAPP orders: whether they match, which one is partially
//! filled, and the notes and note arguments that settle the match.
use crate::assets::{AccountIdWords, FungibleAssetInfo};
use crate::swap_math::{compute_partial_swapp, spec_partial_swapp};
use crate::swapp_note::{
    get_p2id_serial_num, next_swap_serial_num, spec_next_swap_serial_num, spec_p2id_serial_num,
    SwapOrder,
};
use vstd::prelude::*;

verus! {

/// A P2ID note that pays `asset` from `sender` to `target`.
#[derive(Clone, Copy, Debug)]
pub struct P2idNotePlan {
    pub sender: AccountIdWords,
    pub target: AccountIdWords,
    pub asset: FungibleAssetInfo,
    pub serial_num: [u64; 4],
}

/// A SWAPP note that carries on what is left of a partially filled order.
#[derive(Clone, Copy, Debug)]
pub struct SwappNotePlan {
    pub creator: AccountIdWords,
    pub last_consumer: AccountIdWords,
    pub offered: FungibleAssetInfo,
    pub requested: FungibleAssetInfo,
    pub serial_num: [u64; 4],
    pub swap_count: u64,
}

/// Everything the matcher needs to build the single transaction that crosses
/// two SWAPP orders: the P2ID note paid to the creator of each order, the
/// note that continues a partially filled order, and the note arguments to
/// consume each order with.
#[derive(Clone, Copy, Debug)]
pub struct MatchedSwap {
    /// P2ID note paid to the creator of the first order.
    pub p2id_from_1_to_2: P2idNotePlan,
    /// P2ID note paid to the creator of the second order.
    pub p2id_from_2_to_1: P2idNotePlan,
    /// What remains of the partially filled order; `None` when both are filled.
    pub leftover_swapp_note: Option<SwappNotePlan>,
    pub swap_note_1: SwapOrder,
    pub swap_note_2: SwapOrder,
    /// Arguments to consume the first order with: `[0, 0, 0, amount it is paid]`.
    pub note1_args: [u64; 4],
    /// Arguments to consume the second order with: `[0, 0, 0, amount it is paid]`.
    pub note2_args: [u64; 4],
}

/// Each order requests the asset that the other offers.
pub open spec fn spec_orders_opposed(n1: SwapOrder, n2: SwapOrder) -> bool {
    n1.offered.faucet == n2.requested.faucet && n1.requested.faucet == n2.offered.faucet
}

/// The matcher does not lose by crossing the orders:
/// `offered1 * offered2 >= requested1 * requested2`.
pub open spec fn spec_matcher_keeps_value(n1: SwapOrder, n2: SwapOrder) -> bool {
    n1.offered.amount * n2.offered.amount >= n1.requested.amount * n2.requested.amount
}

/// Both orders can be filled completely: each offers more than the other
/// requests, or each offers exactly what the other requests.
pub open spec fn spec_both_fully_filled(n1: SwapOrder, n2: SwapOrder) -> bool {
    ||| (n1.offered.amount > n2.requested.amount && n2.offered.amount > n1.requested.amount)
    ||| (n1.offered.amount == n2.requested.amount && n2.offered.amount == n1.requested.amount && (
    n1.offered == n2.requested || n2.offered == n1.requested))
}

/// `num1 / den1 > num2 / den2` over the extended reals: a positive amount
/// over zero is infinite, zero over zero is undefined and compares false.
pub open spec fn spec_ratio_greater(num1: u64, den1: u64, num2: u64, den2: u64) -> bool {
    if den1 > 0 && den2 > 0 {
        num1 * den2 > num2 * den1
    } else if den1 == 0 {
        num1 > 0 && den2 > 0
    } else {
        false
    }
}

/// The first order is the one that is partially filled: its ratio
/// `offered1 / requested2` is greater than `offered2 / requested1`.
pub open spec fn spec_first_is_maker(n1: SwapOrder, n2: SwapOrder) -> bool {
    spec_ratio_greater(n1.offered.amount, n2.requested.amount, n2.offered.amount, n1.requested.amount)
}

/// The order that is partially filled.
pub open spec fn spec_maker(n1: SwapOrder, n2: SwapOrder) -> SwapOrder {
    if spec_first_is_maker(n1, n2) {
        n1
    } else {
        n2
    }
}

/// The order that is filled completely.
pub open spec fn spec_taker(n1: SwapOrder, n2: SwapOrder) -> SwapOrder {
    if spec_first_is_maker(n1, n2) {
        n2
    } else {
        n1
    }
}

/// The partial fill of the maker by everything the taker offers:
/// (maker amount sent out, maker offer left, maker request left).
pub open spec fn spec_maker_fill(n1: SwapOrder, n2: SwapOrder) -> (int, int, int) {
    let maker = spec_maker(n1, n2);
    let taker = spec_taker(n1, n2);
    spec_partial_swapp(maker.offered.amount, maker.requested.amount, taker.offered.amount)
}

/// The two orders cross.
pub open spec fn spec_match_exists(n1: SwapOrder, n2: SwapOrder) -> bool {
    &&& spec_orders_opposed(n1, n2)
    &&& spec_matcher_keeps_value(n1, n2)
    &&& (spec_both_fully_filled(n1, n2) || (spec_maker_fill(n1, n2).0 != 0
        && spec_taker(n1, n2).requested.amount != 0))
}

/// The partial fill would divide by a maker that requests nothing.
pub open spec fn spec_partial_fill_divides_by_zero(n1: SwapOrder, n2: SwapOrder) -> bool {
    &&& spec_orders_opposed(n1, n2)
    &&& spec_matcher_keeps_value(n1, n2)
    &&& !spec_both_fully_filled(n1, n2)
    &&& spec_maker(n1, n2).requested.amount == 0
}

/// `p` pays `asset` from `matcher` to `target`, with the P2ID serial number
/// of the next fill of `order`.
pub open spec fn spec_p2id_plan(
    p: P2idNotePlan,
    matcher: AccountIdWords,
    target: AccountIdWords,
    asset: FungibleAssetInfo,
    order: SwapOrder,
) -> bool {
    &&& p.sender == matcher
    &&& p.target == target
    &&& p.asset == asset
    &&& p.serial_num@ == spec_p2id_serial_num(order.serial_num@, (order.swap_count + 1) as u64)
}

/// Note arguments that pay `amount` to the order consumed with them.
pub open spec fn spec_note_args(args: [u64; 4], amount: u64) -> bool {
    args@ == seq![0u64, 0u64, 0u64, amount]
}

/// What the creator of `order` is paid when it is the maker or the taker.
pub open spec fn spec_paid_to(n1: SwapOrder, n2: SwapOrder, order_is_first: bool) -> FungibleAssetInfo {
    let order = if order_is_first {
        n1
    } else {
        n2
    };
    if spec_both_fully_filled(n1, n2) {
        order.requested
    } else if order_is_first == spec_first_is_maker(n1, n2) {
        FungibleAssetInfo {
            faucet: order.requested.faucet,
            amount: spec_taker(n1, n2).offered.amount,
        }
    } else {
        order.requested
    }
}

/// `l` is what remains of the maker after the fill: `None` when the fill
/// leaves nothing, otherwise a SWAPP note of the maker's creator, last
/// consumed by the matcher, with the remaining amounts, the next serial
/// number and the next swap count.
///
/// The remaining offer is the pro-rata rule of [`compute_partial_swapp`]:
/// the maker gives up `maker offer * taker offer / maker request` (rounded
/// down, at most its offer), whatever the taker requested, and keeps the
/// rest; the remaining request is `maker request - taker offer` (at least
/// zero). When the taker requests less than the maker gives up, the
/// matcher keeps the difference.
pub open spec fn spec_leftover_plan(
    l: Option<SwappNotePlan>,
    maker: SwapOrder,
    matcher: AccountIdWords,
    fill: (int, int, int),
) -> bool {
    if fill.1 == 0 && fill.2 == 0 {
        l is None
    } else {
        &&& l matches Some(p)
        &&& p.creator == maker.creator
        &&& p.last_consumer == matcher
        &&& p.offered == FungibleAssetInfo { faucet: maker.offered.faucet, amount: fill.1 as u64 }
        &&& p.requested == FungibleAssetInfo {
            faucet: maker.requested.faucet,
            amount: fill.2 as u64,
        }
        &&& p.serial_num@ == spec_next_swap_serial_num(maker.serial_num@)
        &&& p.swap_count == maker.swap_count + 1
    }
}

/// `m` is the settlement of crossing `n1` and `n2` with `matcher`.
pub open spec fn spec_match_correct(
    n1: SwapOrder,
    n2: SwapOrder,
    matcher: AccountIdWords,
    m: MatchedSwap,
) -> bool {
    &&& m.swap_note_1 == n1
    &&& m.swap_note_2 == n2
    &&& spec_p2id_plan(m.p2id_from_1_to_2, matcher, n1.creator, spec_paid_to(n1, n2, true), n1)
    &&& spec_p2id_plan(m.p2id_from_2_to_1, matcher, n2.creator, spec_paid_to(n1, n2, false), n2)
    &&& spec_note_args(m.note1_args, spec_paid_to(n1, n2, true).amount)
    &&& spec_note_args(m.note2_args, spec_paid_to(n1, n2, false).amount)
    &&& if spec_both_fully_filled(n1, n2) {
        m.leftover_swapp_note is None
    } else {
        spec_leftover_plan(
            m.leftover_swapp_note,
            spec_maker(n1, n2),
            matcher,
            spec_maker_fill(n1, n2),
        )
    }
}

pub(crate) fn ratio_greater(num1: u64, den1: u64, num2: u64, den2: u64) -> (r: bool)
    ensures
        r == spec_ratio_greater(num1, den1, num2, den2),
{
    if den1 > 0 && den2 > 0 {
        proof {
            lemma_u64_product_fits(num1, den2);
            lemma_u64_product_fits(num2, den1);
        }
        (num1 as u128) * (den2 as u128) > (num2 as u128) * (den1 as u128)
    } else if den1 == 0 {
        num1 > 0 && den2 > 0
    } else {
        false
    }
}

pub(crate) proof fn lemma_u64_product_fits(a: u64, b: u64)
    ensures
        a * b <= u128::MAX,
{
    assert(a * b <= u64::MAX * u64::MAX) by (nonlinear_arith)
        requires
            a <= u64::MAX,
            b <= u64::MAX,
    ;
}

fn p2id_plan(matcher: AccountIdWords, order: &SwapOrder, asset: FungibleAssetInfo) -> (r:
    P2idNotePlan)
    requires
        order.wf(),
    ensures
        spec_p2id_plan(r, matcher, order.creator, asset, *order),
{
    P2idNotePlan {
        sender: matcher,
        target: order.creator,
        asset,
        serial_num: get_p2id_serial_num(order.serial_num, order.swap_count + 1),
    }
}

/// Crosses two SWAPP orders on behalf of `matcher`.
///
/// Returns `None` when the orders do not request each other's assets, when
/// crossing them would cost the matcher value, or when a partial fill would
/// move nothing. When each order offers at least what the other requests,
/// both are filled and each creator is paid exactly what it requested.
/// Otherwise the order with the larger ratio of offer to the other's request
/// is the maker: the taker is paid exactly what it requested, the maker is
/// paid everything the taker offers, and what remains of the maker is
/// carried on in a new SWAPP note unless nothing remains.
pub fn try_match_swapp_notes(note1: &SwapOrder, note2: &SwapOrder, matcher: AccountIdWords) -> (r:
    Option<MatchedSwap>)
    requires
        note1.wf(),
        note2.wf(),
        !spec_partial_fill_divides_by_zero(*note1, *note2),
    ensures
        r is Some <==> spec_match_exists(*note1, *note2),
        r matches Some(m) ==> spec_match_correct(*note1, *note2, matcher, m),
        r matches Some(m) ==> (m.leftover_swapp_note matches Some(l) ==> l.offered.amount > 0
            || l.requested.amount > 0),
{
    let offer1 = note1.offered;
    let want1 = note1.requested;
    let offer2 = note2.offered;
    let want2 = note2.requested;
    if offer1.faucet != want2.faucet || want1.faucet != offer2.faucet {
        return None;
    }
    proof {
        lemma_u64_product_fits(offer1.amount, offer2.amount);
        lemma_u64_product_fits(want1.amount, want2.amount);
    }
    if (offer1.amount as u128) * (offer2.amount as u128) < (want1.amount as u128) * (
    want2.amount as u128) {
        return None;
    }
    let offer_1_gt_want_2 = offer1.amount > want2.amount;
    let offer_2_gt_want_1 = offer2.amount > want1.amount;
    let both_fully_filled = (offer_1_gt_want_2 && offer_2_gt_want_1) || (offer1.amount
        == want2.amount && offer2.amount == want1.amount && (offer1 == want2 || offer2 == want1));
    if both_fully_filled {
        let p2id_from_1_to_2 = p2id_plan(matcher, note1, want1);
        let p2id_from_2_to_1 = p2id_plan(matcher, note2, want2);
        let note1_args = [0u64, 0u64, 0u64, want1.amount];
        let note2_args = [0u64, 0u64, 0u64, want2.amount];
        assert(note1_args@ =~= seq![0u64, 0u64, 0u64, want1.amount]);
        assert(note2_args@ =~= seq![0u64, 0u64, 0u64, want2.amount]);
        return Some(
            MatchedSwap {
                p2id_from_1_to_2,
                p2id_from_2_to_1,
                leftover_swapp_note: None,
                swap_note_1: *note1,
                swap_note_2: *note2,
                note1_args,
                note2_args,
            },
        );
    }
    let first_is_maker = ratio_greater(offer1.amount, want2.amount, offer2.amount, want1.amount);
    let (maker, taker) = if first_is_maker {
        (note1, note2)
    } else {
        (note2, note1)
    };
    let (amount_out_maker, new_maker_offer, new_maker_want) = compute_partial_swapp(
        maker.offered.amount,
        maker.requested.amount,
        taker.offered.amount,
    );
    let amount_out_taker = taker.requested.amount;
    if amount_out_maker == 0 || amount_out_taker == 0 {
        return None;
    }
    let p2id_to_maker = p2id_plan(
        matcher,
        maker,
        FungibleAssetInfo { faucet: maker.requested.faucet, amount: taker.offered.amount },
    );
    let p2id_to_taker = p2id_plan(matcher, taker, taker.requested);
    let maker_args = [0u64, 0u64, 0u64, taker.offered.amount];
    let taker_args = [0u64, 0u64, 0u64, amount_out_taker];
    assert(maker_args@ =~= seq![0u64, 0u64, 0u64, taker.offered.amount]);
    assert(taker_args@ =~= seq![0u64, 0u64, 0u64, amount_out_taker]);
    let is_complete_fill = new_maker_offer == 0 && new_maker_want == 0;
    let leftover_swapp_note = if !is_complete_fill {
        Some(
            SwappNotePlan {
                creator: maker.creator,
                last_consumer: matcher,
                offered: FungibleAssetInfo { faucet: maker.offered.faucet, amount: new_maker_offer },
                requested: FungibleAssetInfo {
                    faucet: maker.requested.faucet,
                    amount: new_maker_want,
                },
                serial_num: next_swap_serial_num(maker.serial_num),
                swap_count: maker.swap_count + 1,
            },
        )
    } else {
        None
    };
    if first_is_maker {
        Some(
            MatchedSwap {
                p2id_from_1_to_2: p2id_to_maker,
                p2id_from_2_to_1: p2id_to_taker,
                leftover_swapp_note,
                swap_note_1: *note1,
                swap_note_2: *note2,
                note1_args: maker_args,
                note2_args: taker_args,
            },
        )
    } else {
        Some(
            MatchedSwap {
                p2id_from_1_to_2: p2id_to_taker,
                p2id_from_2_to_1: p2id_to_maker,
                leftover_swapp_note,
                swap_note_1: *note1,
                swap_note_2: *note2,
                note1_args: taker_args,
                note2_args: maker_args,
            },
        )
    }
}

/// `asset.amount` when `asset` is issued by `faucet`, zero otherwise.
pub open spec fn spec_amount_of(asset: FungibleAssetInfo, faucet: AccountIdWords) -> int {
    if asset.faucet == faucet {
        asset.amount as int
    } else {
        0
    }
}

/// What the matcher keeps of `faucet`'s asset after settling `m`: the two
/// consumed orders' offers, less the two P2ID payments and the offer carried
/// on in the leftover note.
pub open spec fn spec_matcher_net(m: MatchedSwap, faucet: AccountIdWords) -> int {
    spec_amount_of(m.swap_note_1.offered, faucet) + spec_amount_of(m.swap_note_2.offered, faucet)
        - spec_amount_of(m.p2id_from_1_to_2.asset, faucet) - spec_amount_of(
        m.p2id_from_2_to_1.asset,
        faucet,
    ) - match m.leftover_swapp_note {
        Some(l) => spec_amount_of(l.offered, faucet),
        None => 0,
    }
}

proof fn lemma_floor_at_least(p: int, d: int, t: int)
    requires
        d > 0,
        t >= 0,
        p >= t * d,
    ensures
        p / d >= t,
{
    vstd::arithmetic::div_mod::lemma_div_is_ordered(t * d, p, d);
    vstd::arithmetic::div_mod::lemma_div_multiples_vanish(t, d);
    assert(t * d == d * t) by (nonlinear_arith);
}

/// The partial fill never sends the taker more of the maker's asset than
/// the fill releases, and releases at most the maker's offer.
proof fn lemma_fill_covers_taker(n1: SwapOrder, n2: SwapOrder)
    requires
        n1.wf(),
        n2.wf(),
        spec_orders_opposed(n1, n2),
        spec_matcher_keeps_value(n1, n2),
        !spec_both_fully_filled(n1, n2),
        !spec_partial_fill_divides_by_zero(n1, n2),
    ensures
        spec_taker(n1, n2).requested.amount + spec_maker_fill(n1, n2).1 <= spec_maker(
            n1,
            n2,
        ).offered.amount,
{
    let maker = spec_maker(n1, n2);
    let taker = spec_taker(n1, n2);
    let mo = maker.offered.amount as int;
    let mw = maker.requested.amount as int;
    let to = taker.offered.amount as int;
    let tw = taker.requested.amount as int;
    assert(mo * to >= mw * tw) by (nonlinear_arith)
        requires
            mo * to == n1.offered.amount * n2.offered.amount || mo * to == n2.offered.amount
                * n1.offered.amount,
            mw * tw == n1.requested.amount * n2.requested.amount || mw * tw
                == n2.requested.amount * n1.requested.amount,
            n1.offered.amount * n2.offered.amount >= n1.requested.amount * n2.requested.amount,
    ;
    assert(mw > 0);
    let raw = (mo * to) / mw;
    assert(spec_maker_fill(n1, n2).1 == if mo > raw { mo - raw } else { 0 });
    assert(tw * mw == mw * tw) by (nonlinear_arith);
    lemma_floor_at_least(mo * to, mw, tw);
    if raw > mo {
        // The fill releases more than the offer: the taker offers more than
        // the maker requests, so by the choice of maker it requests less
        // than the maker offers.
        assert(to > mw) by {
            if to <= mw {
                assert(mo * to <= mo * mw) by (nonlinear_arith)
                    requires
                        to <= mw,
                        mo >= 0,
                ;
                vstd::arithmetic::div_mod::lemma_div_is_ordered(mo * to, mo * mw, mw);
                vstd::arithmetic::div_mod::lemma_div_multiples_vanish(mo, mw);
                assert(mo * mw == mw * mo) by (nonlinear_arith);
            }
        }
        let o1 = n1.offered.amount as int;
        let w1 = n1.requested.amount as int;
        let o2 = n2.offered.amount as int;
        let w2 = n2.requested.amount as int;
        if spec_first_is_maker(n1, n2) {
            if w2 > 0 {
                assert(o1 > w2) by (nonlinear_arith)
                    requires
                        o1 * w1 > o2 * w2,
                        o2 > w1,
                        w1 > 0,
                        w2 > 0,
                ;
            }
        } else {
            if w1 > 0 {
                assert(o2 > w1) by (nonlinear_arith)
                    requires
                        o1 * w1 <= o2 * w2,
                        o1 > w2,
                        w1 > 0,
                        w2 > 0,
                ;
            }
        }
    }
}

/// Settling a match never costs the matcher: for every asset, the two
/// consumed orders bring in at least what the P2ID notes and the leftover
/// note take out.
pub proof fn lemma_matcher_never_loses(
    n1: SwapOrder,
    n2: SwapOrder,
    matcher: AccountIdWords,
    m: MatchedSwap,
)
    requires
        n1.wf(),
        n2.wf(),
        !spec_partial_fill_divides_by_zero(n1, n2),
        spec_match_exists(n1, n2),
        spec_match_correct(n1, n2, matcher, m),
    ensures
        forall|faucet: AccountIdWords| spec_matcher_net(m, faucet) >= 0,
{
    if !spec_both_fully_filled(n1, n2) {
        lemma_fill_covers_taker(n1, n2);
    }
}

/// What an order gives up in a match: its whole offer, less what is carried
/// on for it in the leftover note when it is the partially filled one.
pub open spec fn spec_given(n1: SwapOrder, n2: SwapOrder, m: MatchedSwap, order_is_first: bool) -> int {
    let order = if order_is_first {
        n1
    } else {
        n2
    };
    if !spec_both_fully_filled(n1, n2) && order_is_first == spec_first_is_maker(n1, n2) {
        match m.leftover_swapp_note {
            Some(l) => order.offered.amount - l.offered.amount,
            None => order.offered.amount as int,
        }
    } else {
        order.offered.amount as int
    }
}

proof fn lemma_maker_at_limit(n1: SwapOrder, n2: SwapOrder)
    requires
        n1.wf(),
        n2.wf(),
        !spec_partial_fill_divides_by_zero(n1, n2),
        spec_orders_opposed(n1, n2),
        spec_matcher_keeps_value(n1, n2),
        !spec_both_fully_filled(n1, n2),
    ensures
        ({
            let maker = spec_maker(n1, n2);
            let taker = spec_taker(n1, n2);
            let fill = spec_maker_fill(n1, n2);
            &&& (maker.offered.amount - fill.1) * maker.requested.amount <= taker.offered.amount
                * maker.offered.amount
            &&& (fill.1 == 0 && fill.2 == 0) ==> maker.offered.amount * maker.requested.amount
                <= taker.offered.amount * maker.offered.amount
        }),
{
    let maker = spec_maker(n1, n2);
    let taker = spec_taker(n1, n2);
    let mo = maker.offered.amount as int;
    let mw = maker.requested.amount as int;
    let to = taker.offered.amount as int;
    crate::swap_math::lemma_partial_swapp_pro_rata(
        maker.offered.amount,
        maker.requested.amount,
        taker.offered.amount,
    );
    let sat = mo * to;
    let raw = sat / mw;
    let fill = spec_maker_fill(n1, n2);
    assert(mo * to >= 0) by (nonlinear_arith)
        requires
            mo >= 0,
            to >= 0,
    ;
    if raw > mo {
        assert(fill.1 == 0);
        assert(raw * mw <= sat) by {
            vstd::arithmetic::div_mod::lemma_fundamental_div_mod(sat, mw);
            vstd::arithmetic::div_mod::lemma_mod_pos_bound(sat, mw);
            let q = sat / mw;
            let r = sat % mw;
            assert(q * mw <= sat) by (nonlinear_arith)
                requires
                    sat == mw * q + r,
                    r >= 0,
            ;
        }
        assert(mo * mw <= to * mo) by (nonlinear_arith)
            requires
                raw > mo,
                raw * mw <= sat,
                sat <= mo * to,
                mw > 0,
                mo >= 0,
        ;
    } else {
        assert(mo - fill.1 == raw);
        assert(raw * mw <= sat) by {
            vstd::arithmetic::div_mod::lemma_fundamental_div_mod(sat, mw);
            vstd::arithmetic::div_mod::lemma_mod_pos_bound(sat, mw);
            let q = sat / mw;
            let r = sat % mw;
            assert(q * mw <= sat) by (nonlinear_arith)
                requires
                    sat == mw * q + r,
                    r >= 0,
            ;
        }
        assert(raw * mw <= to * mo) by (nonlinear_arith)
            requires
                raw * mw <= sat,
                sat <= mo * to,
        ;
    }
    if fill.1 == 0 && fill.2 == 0 {
        assert(to >= mw);
        assert(mo * mw <= to * mo) by (nonlinear_arith)
            requires
                to >= mw,
                mo >= 0,
        ;
    }
}

/// Every order trades at its limit price or better: each creator is paid in
/// the asset it requested, and what its order gives up, times what it
/// requested, is at most what it is paid times what it offered.
pub proof fn lemma_orders_trade_at_limit(
    n1: SwapOrder,
    n2: SwapOrder,
    matcher: AccountIdWords,
    m: MatchedSwap,
)
    requires
        n1.wf(),
        n2.wf(),
        !spec_partial_fill_divides_by_zero(n1, n2),
        spec_match_exists(n1, n2),
        spec_match_correct(n1, n2, matcher, m),
    ensures
        m.p2id_from_1_to_2.target == n1.creator,
        m.p2id_from_1_to_2.asset.faucet == n1.requested.faucet,
        m.p2id_from_2_to_1.target == n2.creator,
        m.p2id_from_2_to_1.asset.faucet == n2.requested.faucet,
        spec_given(n1, n2, m, true) * n1.requested.amount <= m.p2id_from_1_to_2.asset.amount
            * n1.offered.amount,
        spec_given(n1, n2, m, false) * n2.requested.amount <= m.p2id_from_2_to_1.asset.amount
            * n2.offered.amount,
{
    let o1 = n1.offered.amount as int;
    let w1 = n1.requested.amount as int;
    let o2 = n2.offered.amount as int;
    let w2 = n2.requested.amount as int;
    if spec_both_fully_filled(n1, n2) {
        assert(o1 * w1 <= w1 * o1) by (nonlinear_arith);
        assert(o2 * w2 <= w2 * o2) by (nonlinear_arith);
    } else {
        lemma_maker_at_limit(n1, n2);
        let taker = spec_taker(n1, n2);
        let to = taker.offered.amount as int;
        let tw = taker.requested.amount as int;
        assert(to * tw <= tw * to) by (nonlinear_arith);
        let fill = spec_maker_fill(n1, n2);
        let maker = spec_maker(n1, n2);
        if !(fill.1 == 0 && fill.2 == 0) {
            assert(m.leftover_swapp_note matches Some(l) && l.offered.amount == fill.1);
        }
    }
}

/// A match has one of two outcomes: both orders are filled completely, or
/// one of them is filled completely and the other is carried on in the
/// leftover note. So at least one order is paid exactly what it requested;
/// when there is a leftover note, it continues the other order (same
/// creator and assets) while this one is paid exactly its request; and when
/// there is none, each order is paid at least what it requested.
pub proof fn lemma_at_most_one_order_carried_on(
    n1: SwapOrder,
    n2: SwapOrder,
    matcher: AccountIdWords,
    m: MatchedSwap,
)
    requires
        n1.wf(),
        n2.wf(),
        !spec_partial_fill_divides_by_zero(n1, n2),
        spec_match_exists(n1, n2),
        spec_match_correct(n1, n2, matcher, m),
    ensures
        m.p2id_from_1_to_2.asset == n1.requested || m.p2id_from_2_to_1.asset == n2.requested,
        m.leftover_swapp_note matches Some(l) ==> {
            ||| (l.creator == n1.creator && l.offered.faucet == n1.offered.faucet
                && l.requested.faucet == n1.requested.faucet && m.p2id_from_2_to_1.asset
                == n2.requested)
            ||| (l.creator == n2.creator && l.offered.faucet == n2.offered.faucet
                && l.requested.faucet == n2.requested.faucet && m.p2id_from_1_to_2.asset
                == n1.requested)
        },
        m.leftover_swapp_note is None ==> {
            &&& m.p2id_from_1_to_2.asset.faucet == n1.requested.faucet
            &&& m.p2id_from_1_to_2.asset.amount >= n1.requested.amount
            &&& m.p2id_from_2_to_1.asset.faucet == n2.requested.faucet
            &&& m.p2id_from_2_to_1.asset.amount >= n2.requested.amount
        },
{
}

/// A match never carries on an empty order: where crossing two orders
/// leaves a SWAPP note, that note still offers or requests something; an
/// order whose fill leaves neither offer nor request is complete, and no
/// note continues it.
pub proof fn lemma_leftover_not_empty(n1: SwapOrder, n2: SwapOrder, matcher: AccountIdWords, m: MatchedSwap)
    requires
        !spec_partial_fill_divides_by_zero(n1, n2),
        spec_match_exists(n1, n2),
        spec_match_correct(n1, n2, matcher, m),
    ensures
        m.leftover_swapp_note matches Some(l) ==> l.offered.amount > 0 || l.requested.amount > 0,
{
    if !spec_both_fully_filled(n1, n2) {
        let maker = spec_maker(n1, n2);
        let taker = spec_taker(n1, n2);
        assert(maker.requested.amount > 0);
        let product = maker.offered.amount * taker.offered.amount;
        assert(product >= 0) by (nonlinear_arith)
            requires
                product == maker.offered.amount * taker.offered.amount,
        ;
        vstd::arithmetic::div_mod::lemma_div_pos_is_pos(product, maker.requested.amount as int);
    }
}

} // verus!
