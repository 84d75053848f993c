//! The order book's depth: bids and asks sorted by price, with cumulative
//! volumes, and price levels that group orders.
use crate::assets::AccountIdWords;
use crate::swapp_note::SwapOrder;
use vstd::prelude::*;

verus! {

/// One order of the depth chart: its position in the order list, its
/// quote-asset and base-asset amounts (its price is `quote / base`), and the
/// position of its creator among the named accounts, if named.
#[derive(Clone, Copy, Debug)]
pub struct DepthEntry {
    pub order_index: usize,
    pub quote_amount: u64,
    pub base_amount: u64,
    pub trader: Option<usize>,
}

/// The bids (sorted by price, highest first) and the asks (lowest first),
/// with the running totals of their quote-asset amounts.
#[derive(Debug)]
pub struct DepthBook {
    pub bids: Vec<DepthEntry>,
    pub asks: Vec<DepthEntry>,
    pub bid_cumulative: Vec<u128>,
    pub ask_cumulative: Vec<u128>,
}

/// The first position at or after `k` of `account` among `ids`.
pub open spec fn spec_find_account_from(ids: Seq<AccountIdWords>, account: AccountIdWords, k: nat) -> Option<
    usize,
>
    decreases ids.len() - k,
{
    if k >= ids.len() {
        None
    } else if ids[k as int] == account {
        Some(k as usize)
    } else {
        spec_find_account_from(ids, account, k + 1)
    }
}

/// Returns the first position of `account` among `ids`.
pub fn find_account(ids: &Vec<AccountIdWords>, account: AccountIdWords) -> (r: Option<usize>)
    ensures
        r == spec_find_account_from(ids@, account, 0),
{
    let mut k: usize = 0;
    while k < ids.len()
        invariant
            k <= ids.len(),
            spec_find_account_from(ids@, account, 0) == spec_find_account_from(ids@, account, k as nat),
        decreases ids.len() - k,
    {
        if ids[k] == account {
            return Some(k);
        }
        k = k + 1;
    }
    None
}

/// The depth-chart entry of order `i`: a bid when it offers the quote asset
/// (its quote amount is the offer, its base amount the request), an ask
/// otherwise (the reverse); no entry when its base amount is zero.
pub open spec fn spec_depth_entry(
    orders: Seq<SwapOrder>,
    quote_faucet: AccountIdWords,
    ids: Seq<AccountIdWords>,
    i: int,
) -> Option<(bool, DepthEntry)> {
    let o = orders[i];
    let trader = spec_find_account_from(ids, o.creator, 0);
    if o.offered.faucet == quote_faucet {
        if o.requested.amount > 0 {
            Some(
                (
                    true,
                    DepthEntry {
                        order_index: i as usize,
                        quote_amount: o.offered.amount,
                        base_amount: o.requested.amount,
                        trader,
                    },
                ),
            )
        } else {
            None
        }
    } else {
        if o.offered.amount > 0 {
            Some(
                (
                    false,
                    DepthEntry {
                        order_index: i as usize,
                        quote_amount: o.requested.amount,
                        base_amount: o.offered.amount,
                        trader,
                    },
                ),
            )
        } else {
            None
        }
    }
}

/// `x` comes before `y`: a better price (higher for bids, lower for asks),
/// or the same price and an earlier order.
pub open spec fn spec_entry_before(x: DepthEntry, y: DepthEntry, highest_first: bool) -> bool {
    let lhs = x.quote_amount * y.base_amount;
    let rhs = y.quote_amount * x.base_amount;
    if highest_first {
        lhs > rhs || (lhs == rhs && x.order_index < y.order_index)
    } else {
        lhs < rhs || (lhs == rhs && x.order_index < y.order_index)
    }
}

/// The entries are in strict price order (ties by order position) and have
/// positive base amounts.
pub open spec fn spec_depth_sorted(s: Seq<DepthEntry>, highest_first: bool) -> bool {
    &&& forall|k: int| 0 <= k < s.len() ==> (#[trigger] s[k]).base_amount > 0
    &&& forall|a: int, b: int|
        0 <= a < b < s.len() ==> spec_entry_before(#[trigger] s[a], #[trigger] s[b], highest_first)
}

/// `e` is the entry of one of the first `n` orders, on the side `is_bid`.
pub open spec fn spec_is_side_entry(
    orders: Seq<SwapOrder>,
    quote_faucet: AccountIdWords,
    ids: Seq<AccountIdWords>,
    n: int,
    is_bid: bool,
    e: DepthEntry,
) -> bool {
    exists|i: int|
        0 <= i < n && #[trigger] spec_depth_entry(orders, quote_faucet, ids, i) == Some((is_bid, e))
}

/// The sum of the quote amounts of the first `k` entries.
pub open spec fn spec_quote_sum(s: Seq<DepthEntry>, k: int) -> int
    decreases k,
{
    if k <= 0 {
        0
    } else {
        spec_quote_sum(s, k - 1) + s[k - 1].quote_amount
    }
}

/// The sum of the first `k` amounts.
pub open spec fn spec_amount_sum(s: Seq<u64>, k: int) -> int
    decreases k,
{
    if k <= 0 {
        0
    } else {
        spec_amount_sum(s, k - 1) + s[k - 1]
    }
}

proof fn lemma_amount_sum_bound(s: Seq<u64>, k: int)
    requires
        0 <= k <= s.len(),
    ensures
        0 <= spec_amount_sum(s, k) <= k * u64::MAX,
    decreases k,
{
    if k > 0 {
        lemma_amount_sum_bound(s, k - 1);
    }
}

/// The running totals of `amounts`: element `k` is the sum of the first
/// `k + 1` amounts.
pub fn cumulative_sums(amounts: &Vec<u64>) -> (r: Vec<u128>)
    ensures
        r@.len() == amounts@.len(),
        forall|k: int| 0 <= k < r@.len() ==> #[trigger] r@[k] == spec_amount_sum(amounts@, k + 1),
        r@.len() > 0 ==> r@[0] == amounts@[0],
        forall|k: int| 0 < k < r@.len() ==> #[trigger] r@[k] == r@[k - 1] + amounts@[k],
{
    let mut r: Vec<u128> = Vec::new();
    let mut total: u128 = 0;
    let mut k: usize = 0;
    while k < amounts.len()
        invariant
            k <= amounts.len(),
            r@.len() == k,
            total == spec_amount_sum(amounts@, k as int),
            forall|t: int| 0 <= t < k ==> #[trigger] r@[t] == spec_amount_sum(amounts@, t + 1),
        decreases amounts.len() - k,
    {
        proof {
            lemma_amount_sum_bound(amounts@, (k + 1) as int);
            assert((k + 1) * u64::MAX <= u128::MAX) by (nonlinear_arith)
                requires
                    k < usize::MAX,
            ;
        }
        total = total + amounts[k] as u128;
        r.push(total);
        k = k + 1;
    }
    r
}

proof fn lemma_before_transitive(x: DepthEntry, y: DepthEntry, z: DepthEntry, highest_first: bool)
    requires
        x.base_amount > 0,
        y.base_amount > 0,
        z.base_amount > 0,
        spec_entry_before(x, y, highest_first),
        spec_entry_before(y, z, highest_first),
    ensures
        spec_entry_before(x, z, highest_first),
{
    let xq = x.quote_amount as int;
    let xb = x.base_amount as int;
    let yq = y.quote_amount as int;
    let yb = y.base_amount as int;
    let zq = z.quote_amount as int;
    let zb = z.base_amount as int;
    if highest_first {
        assert(xq * yb >= yq * xb && yq * zb >= zq * yb ==> xq * zb >= zq * xb) by (nonlinear_arith)
            requires
                xb > 0,
                yb > 0,
                zb > 0,
        ;
        assert(xq * yb > yq * xb && yq * zb >= zq * yb ==> xq * zb > zq * xb) by (nonlinear_arith)
            requires
                xb > 0,
                yb > 0,
                zb > 0,
        ;
        assert(xq * yb >= yq * xb && yq * zb > zq * yb ==> xq * zb > zq * xb) by (nonlinear_arith)
            requires
                xb > 0,
                yb > 0,
                zb > 0,
        ;
    } else {
        assert(xq * yb <= yq * xb && yq * zb <= zq * yb ==> xq * zb <= zq * xb) by (nonlinear_arith)
            requires
                xb > 0,
                yb > 0,
                zb > 0,
        ;
        assert(xq * yb < yq * xb && yq * zb <= zq * yb ==> xq * zb < zq * xb) by (nonlinear_arith)
            requires
                xb > 0,
                yb > 0,
                zb > 0,
        ;
        assert(xq * yb <= yq * xb && yq * zb < zq * yb ==> xq * zb < zq * xb) by (nonlinear_arith)
            requires
                xb > 0,
                yb > 0,
                zb > 0,
        ;
    }
}

/// Sorted depth entries are in price order, the price of an entry being
/// `quote_amount / base_amount`: for positions `a < b`, the price at `a` is
/// at least the price at `b` when the highest come first (bids), and at
/// most when the lowest come first (asks).
pub proof fn lemma_depth_sorted_by_price(s: Seq<DepthEntry>, highest_first: bool)
    requires
        spec_depth_sorted(s, highest_first),
    ensures
        highest_first ==> forall|a: int, b: int|
            0 <= a < b < s.len() ==> (#[trigger] s[a]).quote_amount * (#[trigger] s[b]).base_amount
                >= s[b].quote_amount * s[a].base_amount,
        !highest_first ==> forall|a: int, b: int|
            0 <= a < b < s.len() ==> (#[trigger] s[a]).quote_amount * (#[trigger] s[b]).base_amount
                <= s[b].quote_amount * s[a].base_amount,
{
    assert forall|a: int, b: int| 0 <= a < b < s.len() implies {
        &&& highest_first ==> (#[trigger] s[a]).quote_amount * (#[trigger] s[b]).base_amount
            >= s[b].quote_amount * s[a].base_amount
        &&& !highest_first ==> s[a].quote_amount * s[b].base_amount <= s[b].quote_amount
            * s[a].base_amount
    } by {
        assert(spec_entry_before(s[a], s[b], highest_first));
    }
}

/// An entry of the depth chart of the first `n` orders stands for one of
/// them, read from its amounts: a bid offers the quote asset, its quote
/// amount being the order's offer and its base amount the order's positive
/// request; an ask offers another asset, its quote amount being the order's
/// request and its base amount the order's positive offer.
pub proof fn lemma_side_entry_amounts(
    orders: Seq<SwapOrder>,
    quote_faucet: AccountIdWords,
    ids: Seq<AccountIdWords>,
    n: int,
    is_bid: bool,
    e: DepthEntry,
)
    requires
        n <= orders.len() <= usize::MAX,
        spec_is_side_entry(orders, quote_faucet, ids, n, is_bid, e),
    ensures
        0 <= e.order_index < n,
        is_bid ==> orders[e.order_index as int].offered.faucet == quote_faucet
            && e.quote_amount == orders[e.order_index as int].offered.amount
            && e.base_amount == orders[e.order_index as int].requested.amount && e.base_amount > 0,
        !is_bid ==> orders[e.order_index as int].offered.faucet != quote_faucet
            && e.quote_amount == orders[e.order_index as int].requested.amount
            && e.base_amount == orders[e.order_index as int].offered.amount && e.base_amount > 0,
{
    let i = choose|i: int|
        0 <= i < n && #[trigger] spec_depth_entry(orders, quote_faucet, ids, i) == Some((is_bid, e));
    assert(e.order_index == i);
}

/// Every order of the first `n` whose base amount is positive has its entry
/// on its side of the depth chart: a bid when it offers the quote asset, an
/// ask otherwise.
pub proof fn lemma_order_has_entry(
    orders: Seq<SwapOrder>,
    quote_faucet: AccountIdWords,
    ids: Seq<AccountIdWords>,
    n: int,
    i: int,
)
    requires
        0 <= i < n <= orders.len() <= usize::MAX,
    ensures
        orders[i].offered.faucet == quote_faucet && orders[i].requested.amount > 0
            ==> spec_is_side_entry(
            orders,
            quote_faucet,
            ids,
            n,
            true,
            DepthEntry {
                order_index: i as usize,
                quote_amount: orders[i].offered.amount,
                base_amount: orders[i].requested.amount,
                trader: spec_find_account_from(ids, orders[i].creator, 0),
            },
        ),
        orders[i].offered.faucet != quote_faucet && orders[i].offered.amount > 0
            ==> spec_is_side_entry(
            orders,
            quote_faucet,
            ids,
            n,
            false,
            DepthEntry {
                order_index: i as usize,
                quote_amount: orders[i].requested.amount,
                base_amount: orders[i].offered.amount,
                trader: spec_find_account_from(ids, orders[i].creator, 0),
            },
        ),
{
    assert(spec_depth_entry(orders, quote_faucet, ids, i) == spec_depth_entry(orders, quote_faucet, ids, i));
}

fn entry_before(x: &DepthEntry, y: &DepthEntry, highest_first: bool) -> (r: bool)
    ensures
        r == spec_entry_before(*x, *y, highest_first),
{
    proof {
        crate::matching::lemma_u64_product_fits(x.quote_amount, y.base_amount);
        crate::matching::lemma_u64_product_fits(y.quote_amount, x.base_amount);
    }
    let lhs = (x.quote_amount as u128) * (y.base_amount as u128);
    let rhs = (y.quote_amount as u128) * (x.base_amount as u128);
    if highest_first {
        lhs > rhs || (lhs == rhs && x.order_index < y.order_index)
    } else {
        lhs < rhs || (lhs == rhs && x.order_index < y.order_index)
    }
}

/// Inserts `x` into the sorted `v`, after every entry that comes before it.
fn insert_sorted(v: &mut Vec<DepthEntry>, x: DepthEntry, highest_first: bool)
    requires
        spec_depth_sorted(old(v)@, highest_first),
        x.base_amount > 0,
        forall|k: int| 0 <= k < old(v)@.len() ==> (#[trigger] old(v)@[k]).order_index < x.order_index,
    ensures
        spec_depth_sorted(final(v)@, highest_first),
        forall|e: DepthEntry| final(v)@.contains(e) <==> (old(v)@.contains(e) || e == x),
        final(v)@.len() == old(v)@.len() + 1,
{
    let ghost old_v = v@;
    let mut pos: usize = 0;
    while pos < v.len()
        invariant
            v@ == old_v,
            pos <= v@.len(),
            forall|t: int| 0 <= t < pos ==> !spec_entry_before(x, #[trigger] v@[t], highest_first),
        ensures
            pos == v@.len() || spec_entry_before(x, v@[pos as int], highest_first),
        decreases v@.len() - pos,
    {
        if entry_before(&x, &v[pos], highest_first) {
            break;
        }
        pos = pos + 1;
    }
    v.insert(pos, x);
    proof {
        old_v.insert_ensures(pos as int, x);
        let nv = v@;
        assert forall|t: int| 0 <= t < pos implies spec_entry_before(#[trigger] old_v[t], x, highest_first) by {
            assert(old_v[t].order_index < x.order_index);
            assert(!spec_entry_before(x, old_v[t], highest_first));
        }
        assert forall|a: int, b: int| 0 <= a < b < nv.len() implies spec_entry_before(#[trigger] nv[a], #[trigger] nv[b], highest_first) by {
            if b < pos {
                assert(nv[a] == old_v[a] && nv[b] == old_v[b]);
            } else if b == pos {
                assert(nv[a] == old_v[a]);
            } else if a == pos {
                assert(nv[b] == old_v[b - 1]);
                if b - 1 > pos {
                    assert(spec_entry_before(old_v[pos as int], old_v[b - 1], highest_first));
                    lemma_before_transitive(x, old_v[pos as int], old_v[b - 1], highest_first);
                }
            } else if a < pos {
                assert(nv[a] == old_v[a] && nv[b] == old_v[b - 1]);
            } else {
                assert(nv[a] == old_v[a - 1] && nv[b] == old_v[b - 1]);
            }
        }
        assert forall|k: int| 0 <= k < nv.len() implies (#[trigger] nv[k]).base_amount > 0 by {
            if k < pos {
                assert(nv[k] == old_v[k]);
            } else if k > pos {
                assert(nv[k] == old_v[k - 1]);
            }
        }
        assert forall|e: DepthEntry| nv.contains(e) <==> (old_v.contains(e) || e == x) by {
            if nv.contains(e) {
                let k = choose|k: int| 0 <= k < nv.len() && nv[k] == e;
                if k < pos {
                    assert(old_v[k] == e);
                } else if k > pos {
                    assert(old_v[k - 1] == e);
                }
            }
            if old_v.contains(e) {
                let k = choose|k: int| 0 <= k < old_v.len() && old_v[k] == e;
                if k < pos {
                    assert(nv[k] == e);
                } else {
                    assert(nv[k + 1] == e);
                }
            }
            if e == x {
                assert(nv[pos as int] == e);
            }
        }
    }
}

proof fn lemma_sums_agree(s: Seq<DepthEntry>, a: Seq<u64>, k: int)
    requires
        0 <= k <= s.len(),
        a.len() == s.len(),
        forall|t: int| 0 <= t < s.len() ==> a[t] == (#[trigger] s[t]).quote_amount,
    ensures
        spec_amount_sum(a, k) == spec_quote_sum(s, k),
    decreases k,
{
    if k > 0 {
        lemma_sums_agree(s, a, k - 1);
    }
}

/// The running totals of the quote amounts of `entries`.
fn cumulative_quote(entries: &Vec<DepthEntry>) -> (r: Vec<u128>)
    ensures
        r@.len() == entries@.len(),
        forall|k: int| 0 <= k < r@.len() ==> #[trigger] r@[k] == spec_quote_sum(entries@, k + 1),
        r@.len() > 0 ==> r@[0] == entries@[0].quote_amount,
        forall|k: int| 0 < k < r@.len() ==> #[trigger] r@[k] == r@[k - 1] + entries@[k].quote_amount,
{
    let mut amounts: Vec<u64> = Vec::new();
    let mut k: usize = 0;
    while k < entries.len()
        invariant
            k <= entries.len(),
            amounts@.len() == k,
            forall|t: int| 0 <= t < k ==> amounts@[t] == (#[trigger] entries@[t]).quote_amount,
        decreases entries.len() - k,
    {
        amounts.push(entries[k].quote_amount);
        k = k + 1;
    }
    let r = cumulative_sums(&amounts);
    proof {
        assert forall|k: int| 0 <= k < r@.len() implies #[trigger] r@[k] == spec_quote_sum(entries@, k + 1) by {
            lemma_sums_agree(entries@, amounts@, k + 1);
        }
    }
    r
}

/// Builds the depth chart of `orders` against the quote asset issued by
/// `quote_faucet`: every order with a positive base amount is a bid (it
/// offers the quote asset) or an ask; bids are sorted by price, highest
/// first, asks lowest first, orders of equal price keeping their order; the
/// cumulative volumes are running totals of the quote amounts. Each entry
/// names its creator's first position among `account_ids`, if any.
pub fn depth_book(
    orders: &Vec<SwapOrder>,
    quote_faucet: AccountIdWords,
    account_ids: &Vec<AccountIdWords>,
) -> (r: DepthBook)
    ensures
        spec_depth_sorted(r.bids@, true),
        spec_depth_sorted(r.asks@, false),
        forall|e: DepthEntry|
            r.bids@.contains(e) <==> spec_is_side_entry(
                orders@,
                quote_faucet,
                account_ids@,
                orders@.len() as int,
                true,
                e,
            ),
        forall|e: DepthEntry|
            r.asks@.contains(e) <==> spec_is_side_entry(
                orders@,
                quote_faucet,
                account_ids@,
                orders@.len() as int,
                false,
                e,
            ),
        forall|a: int, b: int|
            0 <= a < b < r.bids@.len() ==> (#[trigger] r.bids@[a]).quote_amount
                * (#[trigger] r.bids@[b]).base_amount >= r.bids@[b].quote_amount
                * r.bids@[a].base_amount,
        forall|a: int, b: int|
            0 <= a < b < r.asks@.len() ==> (#[trigger] r.asks@[a]).quote_amount
                * (#[trigger] r.asks@[b]).base_amount <= r.asks@[b].quote_amount
                * r.asks@[a].base_amount,
        forall|k: int|
            0 <= k < r.bids@.len() ==> {
                &&& (#[trigger] r.bids@[k]).order_index < orders@.len()
                &&& orders@[r.bids@[k].order_index as int].offered.faucet == quote_faucet
                &&& r.bids@[k].quote_amount == orders@[r.bids@[k].order_index as int].offered.amount
                &&& r.bids@[k].base_amount == orders@[r.bids@[k].order_index as int].requested.amount
            },
        forall|k: int|
            0 <= k < r.asks@.len() ==> {
                &&& (#[trigger] r.asks@[k]).order_index < orders@.len()
                &&& orders@[r.asks@[k].order_index as int].offered.faucet != quote_faucet
                &&& r.asks@[k].quote_amount == orders@[r.asks@[k].order_index as int].requested.amount
                &&& r.asks@[k].base_amount == orders@[r.asks@[k].order_index as int].offered.amount
            },
        forall|i: int|
            0 <= i < orders@.len() && (#[trigger] orders@[i]).offered.faucet == quote_faucet
                && orders@[i].requested.amount > 0 ==> exists|k: int|
                0 <= k < r.bids@.len() && (#[trigger] r.bids@[k]).order_index == i,
        forall|i: int|
            0 <= i < orders@.len() && (#[trigger] orders@[i]).offered.faucet != quote_faucet
                && orders@[i].offered.amount > 0 ==> exists|k: int|
                0 <= k < r.asks@.len() && (#[trigger] r.asks@[k]).order_index == i,
        r.bid_cumulative@.len() == r.bids@.len(),
        r.bids@.len() > 0 ==> r.bid_cumulative@[0] == r.bids@[0].quote_amount,
        forall|k: int|
            0 < k < r.bids@.len() ==> #[trigger] r.bid_cumulative@[k] == r.bid_cumulative@[k - 1]
                + r.bids@[k].quote_amount,
        forall|k: int|
            0 <= k < r.bids@.len() ==> #[trigger] r.bid_cumulative@[k] == spec_quote_sum(
                r.bids@,
                k + 1,
            ),
        r.ask_cumulative@.len() == r.asks@.len(),
        r.asks@.len() > 0 ==> r.ask_cumulative@[0] == r.asks@[0].quote_amount,
        forall|k: int|
            0 < k < r.asks@.len() ==> #[trigger] r.ask_cumulative@[k] == r.ask_cumulative@[k - 1]
                + r.asks@[k].quote_amount,
        forall|k: int|
            0 <= k < r.asks@.len() ==> #[trigger] r.ask_cumulative@[k] == spec_quote_sum(
                r.asks@,
                k + 1,
            ),
{
    let mut bids: Vec<DepthEntry> = Vec::new();
    let mut asks: Vec<DepthEntry> = Vec::new();
    let mut i: usize = 0;
    while i < orders.len()
        invariant
            i <= orders.len(),
            spec_depth_sorted(bids@, true),
            spec_depth_sorted(asks@, false),
            forall|e: DepthEntry|
                bids@.contains(e) <==> spec_is_side_entry(
                    orders@,
                    quote_faucet,
                    account_ids@,
                    i as int,
                    true,
                    e,
                ),
            forall|e: DepthEntry|
                asks@.contains(e) <==> spec_is_side_entry(
                    orders@,
                    quote_faucet,
                    account_ids@,
                    i as int,
                    false,
                    e,
                ),
        decreases orders.len() - i,
    {
        let o = orders[i];
        let trader = find_account(account_ids, o.creator);
        let ghost entry_i = spec_depth_entry(orders@, quote_faucet, account_ids@, i as int);
        assert forall|k: int| 0 <= k < bids@.len() implies (#[trigger] bids@[k]).order_index < i by {
            assert(bids@.contains(bids@[k]));
            let j = choose|j: int|
                0 <= j < i && #[trigger] spec_depth_entry(orders@, quote_faucet, account_ids@, j) == Some((true, bids@[k]));
        }
        assert forall|k: int| 0 <= k < asks@.len() implies (#[trigger] asks@[k]).order_index < i by {
            assert(asks@.contains(asks@[k]));
            let j = choose|j: int|
                0 <= j < i && #[trigger] spec_depth_entry(orders@, quote_faucet, account_ids@, j) == Some((false, asks@[k]));
        }
        let ghost old_bids = bids@;
        let ghost old_asks = asks@;
        if o.offered.faucet == quote_faucet {
            if o.requested.amount > 0 {
                let e = DepthEntry {
                    order_index: i,
                    quote_amount: o.offered.amount,
                    base_amount: o.requested.amount,
                    trader,
                };
                assert(entry_i == Some((true, e)));
                insert_sorted(&mut bids, e, true);
            }
        } else {
            if o.offered.amount > 0 {
                let e = DepthEntry {
                    order_index: i,
                    quote_amount: o.requested.amount,
                    base_amount: o.offered.amount,
                    trader,
                };
                assert(entry_i == Some((false, e)));
                insert_sorted(&mut asks, e, false);
            }
        }
        assert forall|e: DepthEntry|
            bids@.contains(e) <==> spec_is_side_entry(
                orders@,
                quote_faucet,
                account_ids@,
                (i + 1) as int,
                true,
                e,
            ) by {
            if spec_is_side_entry(orders@, quote_faucet, account_ids@, (i + 1) as int, true, e) {
                let j = choose|j: int|
                    0 <= j < i + 1 && #[trigger] spec_depth_entry(orders@, quote_faucet, account_ids@, j) == Some((true, e));
                if j < i {
                    assert(spec_is_side_entry(orders@, quote_faucet, account_ids@, i as int, true, e));
                }
            }
            if old_bids.contains(e) {
                let j = choose|j: int|
                    0 <= j < i && #[trigger] spec_depth_entry(orders@, quote_faucet, account_ids@, j) == Some((true, e));
                assert(0 <= j < i + 1);
            }
            if bids@.contains(e) && !old_bids.contains(e) {
                assert(spec_depth_entry(orders@, quote_faucet, account_ids@, i as int) == Some((true, e)));
            }
        }
        assert forall|e: DepthEntry|
            asks@.contains(e) <==> spec_is_side_entry(
                orders@,
                quote_faucet,
                account_ids@,
                (i + 1) as int,
                false,
                e,
            ) by {
            if spec_is_side_entry(orders@, quote_faucet, account_ids@, (i + 1) as int, false, e) {
                let j = choose|j: int|
                    0 <= j < i + 1 && #[trigger] spec_depth_entry(orders@, quote_faucet, account_ids@, j) == Some((false, e));
                if j < i {
                    assert(spec_is_side_entry(orders@, quote_faucet, account_ids@, i as int, false, e));
                }
            }
            if old_asks.contains(e) {
                let j = choose|j: int|
                    0 <= j < i && #[trigger] spec_depth_entry(orders@, quote_faucet, account_ids@, j) == Some((false, e));
                assert(0 <= j < i + 1);
            }
            if asks@.contains(e) && !old_asks.contains(e) {
                assert(spec_depth_entry(orders@, quote_faucet, account_ids@, i as int) == Some((false, e)));
            }
        }
        i = i + 1;
    }
    proof {
        lemma_depth_sorted_by_price(bids@, true);
        lemma_depth_sorted_by_price(asks@, false);
        let n = orders@.len() as int;
        assert forall|k: int| 0 <= k < bids@.len() implies {
            &&& (#[trigger] bids@[k]).order_index < orders@.len()
            &&& orders@[bids@[k].order_index as int].offered.faucet == quote_faucet
            &&& bids@[k].quote_amount == orders@[bids@[k].order_index as int].offered.amount
            &&& bids@[k].base_amount == orders@[bids@[k].order_index as int].requested.amount
        } by {
            assert(bids@.contains(bids@[k]));
            lemma_side_entry_amounts(orders@, quote_faucet, account_ids@, n, true, bids@[k]);
        }
        assert forall|k: int| 0 <= k < asks@.len() implies {
            &&& (#[trigger] asks@[k]).order_index < orders@.len()
            &&& orders@[asks@[k].order_index as int].offered.faucet != quote_faucet
            &&& asks@[k].quote_amount == orders@[asks@[k].order_index as int].requested.amount
            &&& asks@[k].base_amount == orders@[asks@[k].order_index as int].offered.amount
        } by {
            assert(asks@.contains(asks@[k]));
            lemma_side_entry_amounts(orders@, quote_faucet, account_ids@, n, false, asks@[k]);
        }
        assert forall|i: int|
            0 <= i < orders@.len() && (#[trigger] orders@[i]).offered.faucet == quote_faucet
                && orders@[i].requested.amount > 0 implies exists|k: int|
                0 <= k < bids@.len() && (#[trigger] bids@[k]).order_index == i by {
            lemma_order_has_entry(orders@, quote_faucet, account_ids@, n, i);
            let e = DepthEntry {
                order_index: i as usize,
                quote_amount: orders@[i].offered.amount,
                base_amount: orders@[i].requested.amount,
                trader: spec_find_account_from(account_ids@, orders@[i].creator, 0),
            };
            assert(bids@.contains(e));
            let k = choose|k: int| 0 <= k < bids@.len() && bids@[k] == e;
            assert(bids@[k].order_index == i);
        }
        assert forall|i: int|
            0 <= i < orders@.len() && (#[trigger] orders@[i]).offered.faucet != quote_faucet
                && orders@[i].offered.amount > 0 implies exists|k: int|
                0 <= k < asks@.len() && (#[trigger] asks@[k]).order_index == i by {
            lemma_order_has_entry(orders@, quote_faucet, account_ids@, n, i);
            let e = DepthEntry {
                order_index: i as usize,
                quote_amount: orders@[i].requested.amount,
                base_amount: orders@[i].offered.amount,
                trader: spec_find_account_from(account_ids@, orders@[i].creator, 0),
            };
            assert(asks@.contains(e));
            let k = choose|k: int| 0 <= k < asks@.len() && asks@[k] == e;
            assert(asks@[k].order_index == i);
        }
    }
    let bid_cumulative = cumulative_quote(&bids);
    let ask_cumulative = cumulative_quote(&asks);
    DepthBook { bids, asks, bid_cumulative, ask_cumulative }
}

/// The orders at one price: their price key, total quantity and number, and
/// the total quantity of this and every higher level.
#[derive(Clone, Copy, Debug)]
pub struct PriceLevel {
    pub price_key: u64,
    pub quantity: u128,
    pub order_count: usize,
    pub cumulative_quantity: u128,
}

/// The total quantity of the first `n` orders whose price key is `key`.
pub open spec fn spec_key_quantity(keys: Seq<u64>, quantities: Seq<u64>, key: u64, n: int) -> int
    decreases n,
{
    if n <= 0 {
        0
    } else {
        spec_key_quantity(keys, quantities, key, n - 1) + if keys[n - 1] == key {
            quantities[n - 1] as int
        } else {
            0
        }
    }
}

/// The number of the first `n` orders whose price key is `key`.
pub open spec fn spec_key_count(keys: Seq<u64>, key: u64, n: int) -> int
    decreases n,
{
    if n <= 0 {
        0
    } else {
        spec_key_count(keys, key, n - 1) + if keys[n - 1] == key {
            1int
        } else {
            0
        }
    }
}

/// The total quantity of the first `k` levels.
pub open spec fn spec_level_sum(levels: Seq<PriceLevel>, k: int) -> int
    decreases k,
{
    if k <= 0 {
        0
    } else {
        spec_level_sum(levels, k - 1) + levels[k - 1].quantity
    }
}

proof fn lemma_key_absent(keys: Seq<u64>, quantities: Seq<u64>, key: u64, n: int)
    requires
        0 <= n <= keys.len(),
        forall|t: int| 0 <= t < n ==> keys[t] != key,
    ensures
        spec_key_quantity(keys, quantities, key, n) == 0,
        spec_key_count(keys, key, n) == 0,
    decreases n,
{
    if n > 0 {
        lemma_key_absent(keys, quantities, key, n - 1);
    }
}

proof fn lemma_key_totals_bound(keys: Seq<u64>, quantities: Seq<u64>, key: u64, n: int)
    requires
        0 <= n <= keys.len(),
        keys.len() == quantities.len(),
    ensures
        0 <= spec_key_quantity(keys, quantities, key, n) <= spec_amount_sum(quantities, n),
        0 <= spec_key_count(keys, key, n) <= n,
    decreases n,
{
    if n > 0 {
        lemma_key_totals_bound(keys, quantities, key, n - 1);
    }
}

proof fn lemma_level_sum_update(s: Seq<PriceLevel>, p: int, x: PriceLevel, k: int)
    requires
        0 <= p < s.len(),
        0 <= k <= s.len(),
    ensures
        spec_level_sum(s.update(p, x), k) == spec_level_sum(s, k) + if p < k {
            x.quantity - s[p].quantity
        } else {
            0
        },
    decreases k,
{
    if k > 0 {
        lemma_level_sum_update(s, p, x, k - 1);
    }
}

proof fn lemma_level_sum_insert(s: Seq<PriceLevel>, p: int, x: PriceLevel, k: int)
    requires
        0 <= p <= s.len(),
        0 <= k <= s.len() + 1,
    ensures
        spec_level_sum(s.insert(p, x), k) == if k <= p {
            spec_level_sum(s, k)
        } else {
            spec_level_sum(s, k - 1) + x.quantity
        },
    decreases k,
{
    s.insert_ensures(p, x);
    if k > 0 {
        lemma_level_sum_insert(s, p, x, k - 1);
    }
}

proof fn lemma_level_sum_monotone(s: Seq<PriceLevel>, j: int, k: int)
    requires
        0 <= j <= k <= s.len(),
    ensures
        spec_level_sum(s, j) <= spec_level_sum(s, k),
    decreases k - j,
{
    if j < k {
        lemma_level_sum_monotone(s, j, k - 1);
    }
}

/// Some level has the key `key`.
pub open spec fn spec_key_listed(levels: Seq<PriceLevel>, key: u64) -> bool {
    exists|k: int| 0 <= k < levels.len() && #[trigger] levels[k].price_key == key
}

/// One of the first `n` orders has the key `key`.
pub open spec fn spec_key_seen(keys: Seq<u64>, n: int, key: u64) -> bool {
    exists|t: int| 0 <= t < n && #[trigger] keys[t] == key
}

/// The levels are in strictly decreasing key order, hold exactly the keys
/// among the first `n`, and each holds its key's total quantity and count.
pub open spec fn spec_levels_group(levels: Seq<PriceLevel>, keys: Seq<u64>, quantities: Seq<u64>, n: int) -> bool {
    &&& forall|a: int, b: int|
        0 <= a < b < levels.len() ==> (#[trigger] levels[a]).price_key > (#[trigger] levels[b]).price_key
    &&& forall|t: int| 0 <= t < n ==> spec_key_listed(levels, #[trigger] keys[t])
    &&& forall|k: int| 0 <= k < levels.len() ==> spec_key_seen(keys, n, (#[trigger] levels[k]).price_key)
    &&& forall|k: int|
        0 <= k < levels.len() ==> (#[trigger] levels[k]).quantity == spec_key_quantity(
            keys,
            quantities,
            levels[k].price_key,
            n,
        ) && levels[k].order_count == spec_key_count(keys, levels[k].price_key, n)
}

/// Groups orders by price key (the order at position `t` has key
/// `price_keys[t]` and quantity `quantities[t]`): one level per key, highest
/// key first, with the total quantity and the number of orders at that key,
/// and the running total of the quantities down to that level.
#[verifier::spinoff_prover]
#[verifier::rlimit(40)]
pub fn aggregate_price_levels(price_keys: &Vec<u64>, quantities: &Vec<u64>) -> (r: Vec<PriceLevel>)
    requires
        price_keys@.len() == quantities@.len(),
    ensures
        spec_levels_group(r@, price_keys@, quantities@, price_keys@.len() as int),
        forall|k: int|
            0 <= k < r@.len() ==> (#[trigger] r@[k]).cumulative_quantity == spec_level_sum(r@, k + 1),
{
    let n = price_keys.len();
    let mut levels: Vec<PriceLevel> = Vec::new();
    let mut t: usize = 0;
    while t < n
        invariant
            n == price_keys@.len(),
            n == quantities@.len(),
            t <= n,
            spec_levels_group(levels@, price_keys@, quantities@, t as int),
            spec_level_sum(levels@, levels@.len() as int) == spec_amount_sum(quantities@, t as int),
            levels@.len() <= t,
        decreases n - t,
    {
        let key = price_keys[t];
        let q = quantities[t];
        let mut p: usize = 0;
        while p < levels.len() && levels[p].price_key > key
            invariant
                p <= levels@.len(),
                forall|k: int| 0 <= k < p ==> (#[trigger] levels@[k]).price_key > key,
            decreases levels@.len() - p,
        {
            p = p + 1;
        }
        let ghost old_levels = levels@;
        proof {
            lemma_key_totals_bound(price_keys@, quantities@, key, t as int);
            lemma_amount_sum_bound(quantities@, (t + 1) as int);
            assert((t + 1) * u64::MAX <= u128::MAX) by (nonlinear_arith)
                requires
                    t < usize::MAX,
            ;
        }
        if p < levels.len() && levels[p].price_key == key {
            let old = levels[p];
            proof {
                assert(old.order_count <= t);
                assert(old.quantity <= spec_amount_sum(quantities@, t as int));
            }
            let updated = PriceLevel {
                price_key: key,
                quantity: old.quantity + q as u128,
                order_count: old.order_count + 1,
                cumulative_quantity: 0,
            };
            levels.set(p, updated);
            proof {
                lemma_level_sum_update(old_levels, p as int, updated, old_levels.len() as int);
                assert forall|k: int| 0 <= k < levels@.len() implies (#[trigger] levels@[k]).quantity
                    == spec_key_quantity(price_keys@, quantities@, levels@[k].price_key, (t + 1) as int)
                    && levels@[k].order_count == spec_key_count(price_keys@, levels@[k].price_key, (t + 1) as int) by {
                    if k != p {
                        assert(levels@[k] == old_levels[k]);
                        assert(old_levels[k].price_key != key) by {
                            if k < p {
                                assert(old_levels[k].price_key > key);
                            } else {
                                assert(old_levels[p as int].price_key > old_levels[k].price_key);
                            }
                        }
                    }
                }
                assert forall|s: int| 0 <= s < t + 1 implies spec_key_listed(levels@, #[trigger] price_keys@[s]) by {
                    if s < t {
                        let k = choose|k: int| 0 <= k < old_levels.len() && #[trigger] old_levels[k].price_key == price_keys@[s];
                        assert(levels@[k].price_key == old_levels[k].price_key);
                    } else {
                        assert(levels@[p as int].price_key == price_keys@[s]);
                    }
                }
                assert forall|k: int| 0 <= k < levels@.len() implies spec_key_seen(price_keys@, (t + 1) as int, (#[trigger] levels@[k]).price_key) by {
                    assert(levels@[k].price_key == old_levels[k].price_key);
                    assert(old_levels.len() == levels@.len());
                    let s = choose|s: int| 0 <= s < t && #[trigger] price_keys@[s] == old_levels[k].price_key;
                        assert(price_keys@[s] == levels@[k].price_key);
                }
                assert forall|a: int, b: int| 0 <= a < b < levels@.len() implies (#[trigger] levels@[a]).price_key > (#[trigger] levels@[b]).price_key by {
                    assert(levels@[a].price_key == old_levels[a].price_key);
                    assert(levels@[b].price_key == old_levels[b].price_key);
                }
            }
        } else {
            let fresh = PriceLevel { price_key: key, quantity: q as u128, order_count: 1, cumulative_quantity: 0 };
            proof {
                assert forall|s: int| 0 <= s < t implies price_keys@[s] != key by {
                    let k = choose|k: int| 0 <= k < old_levels.len() && #[trigger] old_levels[k].price_key == price_keys@[s];
                    if k < p {
                        assert(old_levels[k].price_key > key);
                    } else if k > p {
                        assert(old_levels[p as int].price_key > old_levels[k].price_key);
                        assert(old_levels[p as int].price_key <= key);
                    } else {
                        assert(old_levels[p as int].price_key != key);
                    }
                }
                lemma_key_absent(price_keys@, quantities@, key, t as int);
            }
            levels.insert(p, fresh);
            proof {
                old_levels.insert_ensures(p as int, fresh);
                lemma_level_sum_insert(old_levels, p as int, fresh, (old_levels.len() + 1) as int);
                assert forall|k: int| 0 <= k < levels@.len() implies (#[trigger] levels@[k]).quantity
                    == spec_key_quantity(price_keys@, quantities@, levels@[k].price_key, (t + 1) as int)
                    && levels@[k].order_count == spec_key_count(price_keys@, levels@[k].price_key, (t + 1) as int) by {
                    if k < p {
                        assert(levels@[k] == old_levels[k]);
                        assert(old_levels[k].price_key > key);
                    } else if k > p {
                        assert(levels@[k] == old_levels[k - 1]);
                        assert(old_levels[k - 1].price_key < key) by {
                            if p < old_levels.len() {
                                assert(old_levels[p as int].price_key <= key);
                                assert(old_levels[p as int].price_key != key);
                                if k - 1 > p {
                                    assert(old_levels[p as int].price_key > old_levels[k - 1].price_key);
                                }
                            }
                        }
                    }
                }
                assert forall|s: int| 0 <= s < t + 1 implies spec_key_listed(levels@, #[trigger] price_keys@[s]) by {
                    if s < t {
                        let k = choose|k: int| 0 <= k < old_levels.len() && #[trigger] old_levels[k].price_key == price_keys@[s];
                        if k < p {
                            assert(levels@[k].price_key == old_levels[k].price_key);
                        } else {
                            assert(levels@[k + 1].price_key == old_levels[k].price_key);
                        }
                    } else {
                        assert(levels@[p as int].price_key == price_keys@[s]);
                    }
                }
                assert forall|k: int| 0 <= k < levels@.len() implies spec_key_seen(price_keys@, (t + 1) as int, (#[trigger] levels@[k]).price_key) by {
                    if k < p {
                        assert(levels@[k] == old_levels[k]);
                        let s = choose|s: int| 0 <= s < t && #[trigger] price_keys@[s] == old_levels[k].price_key;
                        assert(price_keys@[s] == levels@[k].price_key);
                    } else if k > p {
                        assert(levels@[k] == old_levels[k - 1]);
                        let s = choose|s: int| 0 <= s < t && #[trigger] price_keys@[s] == old_levels[k - 1].price_key;
                        assert(price_keys@[s] == levels@[k].price_key);
                    } else {
                        assert(price_keys@[t as int] == levels@[k].price_key);
                        assert(0 <= t < t + 1);
                    }
                }
                assert forall|a: int, b: int| 0 <= a < b < levels@.len() implies (#[trigger] levels@[a]).price_key > (#[trigger] levels@[b]).price_key by {
                    if b < p {
                        assert(levels@[a] == old_levels[a] && levels@[b] == old_levels[b]);
                    } else if b == p {
                        assert(levels@[a] == old_levels[a]);
                    } else if a == p {
                        assert(levels@[b] == old_levels[b - 1]);
                        if b - 1 > p {
                            assert(old_levels[p as int].price_key > old_levels[b - 1].price_key);
                        }
                        assert(old_levels[p as int].price_key <= key);
                        assert(old_levels[p as int].price_key != key);
                    } else if a < p {
                        assert(levels@[a] == old_levels[a] && levels@[b] == old_levels[b - 1]);
                    } else {
                        assert(levels@[a] == old_levels[a - 1] && levels@[b] == old_levels[b - 1]);
                    }
                }
            }
        }
        t = t + 1;
    }
    let ghost grouped = levels@;
    proof {
        lemma_amount_sum_bound(quantities@, n as int);
        assert(n * u64::MAX <= u128::MAX) by (nonlinear_arith)
            requires
                n <= usize::MAX,
        ;
    }
    let mut total: u128 = 0;
    let mut k: usize = 0;
    while k < levels.len()
        invariant
            levels@.len() == grouped.len(),
            k <= levels@.len(),
            total == spec_level_sum(grouped, k as int),
            spec_level_sum(grouped, grouped.len() as int) <= u128::MAX,
            forall|j: int| 0 <= j < levels@.len() ==> (#[trigger] levels@[j]).price_key == grouped[j].price_key
                && levels@[j].quantity == grouped[j].quantity && levels@[j].order_count == grouped[j].order_count,
            forall|j: int| 0 <= j < k ==> (#[trigger] levels@[j]).cumulative_quantity == spec_level_sum(grouped, j + 1),
        decreases levels@.len() - k,
    {
        proof {
            lemma_level_sum_monotone(grouped, (k + 1) as int, grouped.len() as int);
        }
        let level = levels[k];
        total = total + level.quantity;
        levels.set(k, PriceLevel { cumulative_quantity: total, ..level });
        k = k + 1;
    }
    proof {
        assert forall|j: int| 0 <= j <= levels@.len() implies spec_level_sum(levels@, j) == spec_level_sum(grouped, j) by {
            lemma_level_sums_equal(levels@, grouped, j);
        }
        assert forall|s: int| 0 <= s < n implies spec_key_listed(levels@, #[trigger] price_keys@[s]) by {
            assert(spec_key_listed(grouped, price_keys@[s]));
            let k = choose|k: int| 0 <= k < grouped.len() && #[trigger] grouped[k].price_key == price_keys@[s];
            assert(levels@[k].price_key == price_keys@[s]);
        }
        assert forall|k: int| 0 <= k < levels@.len() implies spec_key_seen(price_keys@, n as int, (#[trigger] levels@[k]).price_key) by {
            assert(spec_key_seen(price_keys@, n as int, grouped[k].price_key));
        }
        assert forall|a: int, b: int| 0 <= a < b < levels@.len() implies (#[trigger] levels@[a]).price_key > (#[trigger] levels@[b]).price_key by {
            assert(grouped[a].price_key > grouped[b].price_key);
        }
        assert forall|k: int| 0 <= k < levels@.len() implies (#[trigger] levels@[k]).quantity == spec_key_quantity(
            price_keys@,
            quantities@,
            levels@[k].price_key,
            n as int,
        ) && levels@[k].order_count == spec_key_count(price_keys@, levels@[k].price_key, n as int) by {
            assert(grouped[k].quantity == spec_key_quantity(price_keys@, quantities@, grouped[k].price_key, n as int));
        }
    }
    levels
}

proof fn lemma_level_sums_equal(a: Seq<PriceLevel>, b: Seq<PriceLevel>, j: int)
    requires
        a.len() == b.len(),
        0 <= j <= a.len(),
        forall|t: int| 0 <= t < a.len() ==> (#[trigger] a[t]).quantity == b[t].quantity,
    ensures
        spec_level_sum(a, j) == spec_level_sum(b, j),
    decreases j,
{
    if j > 0 {
        lemma_level_sums_equal(a, b, j - 1);
    }
}

} // verus!
