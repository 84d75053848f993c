//! The decisions of a matching cycle: which pairs of open orders to cross,
//! and how the orders of a settled match are recorded.
use crate::assets::AccountIdWords;
use crate::matching::{
    ratio_greater, spec_match_correct, spec_match_exists, spec_partial_fill_divides_by_zero,
    try_match_swapp_notes, MatchedSwap,
};
use crate::swapp_note::SwapOrder;
use vstd::prelude::*;

verus! {

/// Most orders settled in one batch transaction.
pub const MAX_BATCH_SIZE: usize = 50;

/// Most matched pairs settled in one batch transaction: each pair settles
/// two orders, so `2 * MAX_BATCH_PAIRS == MAX_BATCH_SIZE`.
pub const MAX_BATCH_PAIRS: usize = 25;

/// A match between the orders at positions `first < second` of the order list.
#[derive(Clone, Copy, Debug)]
pub struct PairMatch {
    pub first: usize,
    pub second: usize,
    pub swap: MatchedSwap,
}

/// `(a1, b1)` comes before `(a2, b2)` in lexicographic order.
pub open spec fn spec_pair_before(a1: int, b1: int, a2: int, b2: int) -> bool {
    a1 < a2 || (a1 == a2 && b1 < b2)
}

/// The pair `(a, b)` is one of the matches.
pub open spec fn spec_chosen(r: Seq<PairMatch>, a: int, b: int) -> bool {
    exists|k: int| 0 <= k < r.len() && #[trigger] r[k].first == a && r[k].second == b
}

/// Some match uses the order at position `i`.
pub open spec fn spec_index_used(r: Seq<PairMatch>, i: int) -> bool {
    exists|k: int| 0 <= k < r.len() && (#[trigger] r[k].first == i || r[k].second == i)
}

/// A match that comes before the pair `(a, b)` uses `a` or `b`.
pub open spec fn spec_used_before(r: Seq<PairMatch>, a: int, b: int) -> bool {
    exists|k: int|
        0 <= k < r.len() && spec_pair_before(#[trigger] r[k].first as int, r[k].second as int, a, b)
            && (r[k].first == a || r[k].first == b || r[k].second == a || r[k].second == b)
}

/// Every entry is a correct match of the orders it names.
pub open spec fn spec_entries_correct(
    orders: Seq<SwapOrder>,
    matcher: AccountIdWords,
    r: Seq<PairMatch>,
) -> bool {
    forall|k: int|
        0 <= k < r.len() ==> {
            let e = #[trigger] r[k];
            &&& e.first < e.second < orders.len()
            &&& spec_match_exists(orders[e.first as int], orders[e.second as int])
            &&& spec_match_correct(orders[e.first as int], orders[e.second as int], matcher, e.swap)
        }
}

/// The matches come in lexicographic order of their pairs.
pub open spec fn spec_entries_ordered(r: Seq<PairMatch>) -> bool {
    forall|k1: int, k2: int|
        0 <= k1 < k2 < r.len() ==> spec_pair_before(
            #[trigger] r[k1].first as int,
            r[k1].second as int,
            #[trigger] r[k2].first as int,
            r[k2].second as int,
        )
}

/// Every order of `orders` is well formed.
pub open spec fn spec_orders_wf(orders: Seq<SwapOrder>) -> bool {
    forall|i: int| 0 <= i < orders.len() ==> (#[trigger] orders[i]).wf()
}

/// The pair `(a, b)` was scanned: it is a match exactly when its orders
/// cross and neither belongs to an earlier match; and when neither belongs
/// to an earlier match, crossing them does not make the partial fill divide
/// by zero.
pub open spec fn spec_pair_scanned(orders: Seq<SwapOrder>, r: Seq<PairMatch>, a: int, b: int) -> bool {
    &&& (spec_chosen(r, a, b) <==> (spec_match_exists(orders[a], orders[b]) && !spec_used_before(
        r,
        a,
        b,
    )))
    &&& (!spec_used_before(r, a, b) ==> !spec_partial_fill_divides_by_zero(orders[a], orders[b]))
}

/// `r` are the matches found by scanning the pairs of `orders` in
/// lexicographic order for `matcher`, and `stop` is where the scan stopped:
/// `None` when every pair was scanned, or the first pair of two free orders
/// whose partial fill would divide by zero.
pub open spec fn spec_scan(
    orders: Seq<SwapOrder>,
    matcher: AccountIdWords,
    r: Seq<PairMatch>,
    stop: Option<(usize, usize)>,
) -> bool {
    &&& spec_entries_correct(orders, matcher, r)
    &&& spec_entries_ordered(r)
    &&& match stop {
        None => forall|a: int, b: int|
            0 <= a < b < orders.len() ==> #[trigger] spec_pair_scanned(orders, r, a, b),
        Some(p) => {
            &&& p.0 < p.1 < orders.len()
            &&& spec_partial_fill_divides_by_zero(orders[p.0 as int], orders[p.1 as int])
            &&& !spec_used_before(r, p.0 as int, p.1 as int)
            &&& forall|t: int|
                0 <= t < r.len() ==> spec_pair_before(
                    (#[trigger] r[t]).first as int,
                    r[t].second as int,
                    p.0 as int,
                    p.1 as int,
                )
            &&& forall|a: int, b: int|
                0 <= a < b < orders.len() && spec_pair_before(a, b, p.0 as int, p.1 as int)
                    ==> #[trigger] spec_pair_scanned(orders, r, a, b)
        },
    }
}

/// Whether crossing `note1` and `note2` would make the partial fill divide
/// by zero (the maker requests nothing).
pub fn partial_fill_divides_by_zero(note1: &SwapOrder, note2: &SwapOrder) -> (r: bool)
    requires
        note1.wf(),
        note2.wf(),
    ensures
        r == spec_partial_fill_divides_by_zero(*note1, *note2),
{
    let opposed = note1.offered.faucet == note2.requested.faucet && note1.requested.faucet
        == note2.offered.faucet;
    proof {
        assert(note1.offered.amount * note2.offered.amount <= u64::MAX * u64::MAX) by (nonlinear_arith)
            requires
                note1.offered.amount <= u64::MAX,
                note2.offered.amount <= u64::MAX,
        ;
        assert(note1.requested.amount * note2.requested.amount <= u64::MAX * u64::MAX) by (nonlinear_arith)
            requires
                note1.requested.amount <= u64::MAX,
                note2.requested.amount <= u64::MAX,
        ;
    }
    let keeps = (note1.offered.amount as u128) * (note2.offered.amount as u128) >= (
    note1.requested.amount as u128) * (note2.requested.amount as u128);
    let o1 = note1.offered.amount;
    let w1 = note1.requested.amount;
    let o2 = note2.offered.amount;
    let w2 = note2.requested.amount;
    let both = (o1 > w2 && o2 > w1) || (o1 == w2 && o2 == w1 && (note1.offered == note2.requested
        || note2.offered == note1.requested));
    let first_is_maker = ratio_greater(o1, w2, o2, w1);
    let maker_want = if first_is_maker {
        w1
    } else {
        w2
    };
    opposed && keeps && !both && maker_want == 0
}

/// The matches of a matching cycle, and the pair at which the scan stopped
/// because crossing it would divide by zero, if any.
#[derive(Clone, Debug)]
pub struct MatchScan {
    pub matches: Vec<PairMatch>,
    pub stopped_at: Option<(usize, usize)>,
}

/// Finds the pairs of orders to cross in one matching cycle: pairs are
/// tried in lexicographic order `(0, 1), (0, 2), ..., (1, 2), ...`, a pair is
/// skipped when either order already belongs to an earlier match, and
/// otherwise taken when the two orders cross. The scan stops at the first
/// pair of free orders whose partial fill would divide by zero (a maker
/// that requests nothing), which it reports.
pub fn find_matches(orders: &Vec<SwapOrder>, matcher: AccountIdWords) -> (r: MatchScan)
    requires
        spec_orders_wf(orders@),
    ensures
        spec_scan(orders@, matcher, r.matches@, r.stopped_at),
{
    let n = orders.len();
    let mut used: Vec<bool> = Vec::new();
    let mut k: usize = 0;
    while k < n
        invariant
            k <= n,
            used@.len() == k,
            forall|t: int| 0 <= t < k ==> !used@[t],
        decreases n - k,
    {
        used.push(false);
        k = k + 1;
    }
    let mut r: Vec<PairMatch> = Vec::new();
    let mut i: usize = 0;
    while i < n
        invariant
            n == orders.len(),
            spec_orders_wf(orders@),
            i <= n,
            used@.len() == n,
            forall|t: int| 0 <= t < n ==> (used@[t] <==> spec_index_used(r@, t)),
            spec_entries_correct(orders@, matcher, r@),
            spec_entries_ordered(r@),
            forall|t: int| 0 <= t < r.len() ==> (#[trigger] r@[t]).first < i,
            forall|a: int, b: int|
                0 <= a < b < n && a < i ==> #[trigger] spec_pair_scanned(orders@, r@, a, b),
        decreases n - i,
    {
        let mut j: usize = i + 1;
        while j < n
            invariant
                n == orders.len(),
                spec_orders_wf(orders@),
                i < n,
                i < j <= n,
                used@.len() == n,
                forall|t: int| 0 <= t < n ==> (used@[t] <==> spec_index_used(r@, t)),
                spec_entries_correct(orders@, matcher, r@),
                spec_entries_ordered(r@),
                forall|t: int|
                    0 <= t < r.len() ==> spec_pair_before(
                        (#[trigger] r@[t]).first as int,
                        r@[t].second as int,
                        i as int,
                        j as int,
                    ),
                forall|a: int, b: int|
                    0 <= a < b < n && spec_pair_before(a, b, i as int, j as int)
                        ==> #[trigger] spec_pair_scanned(orders@, r@, a, b),
            decreases n - j,
        {
            let ghost old_r = r@;
            let ghost old_used = used@;
            assert(spec_used_before(r@, i as int, j as int) <==> (spec_index_used(r@, i as int)
                || spec_index_used(r@, j as int))) by {
                if spec_index_used(r@, i as int) {
                    let t = choose|t: int|
                        0 <= t < r@.len() && (#[trigger] r@[t].first == i || r@[t].second == i);
                    assert(spec_pair_before(r@[t].first as int, r@[t].second as int, i as int, j as int));
                }
                if spec_index_used(r@, j as int) {
                    let t = choose|t: int|
                        0 <= t < r@.len() && (#[trigger] r@[t].first == j || r@[t].second == j);
                    assert(spec_pair_before(r@[t].first as int, r@[t].second as int, i as int, j as int));
                }
            }
            assert(!spec_chosen(r@, i as int, j as int)) by {
                if spec_chosen(r@, i as int, j as int) {
                    let t = choose|t: int| 0 <= t < r@.len() && #[trigger] r@[t].first == i && r@[t].second == j;
                    assert(spec_pair_before(r@[t].first as int, r@[t].second as int, i as int, j as int));
                }
            }
            if !used[i] && !used[j] {
                if partial_fill_divides_by_zero(&orders[i], &orders[j]) {
                    return MatchScan { matches: r, stopped_at: Some((i, j)) };
                }
                match try_match_swapp_notes(&orders[i], &orders[j], matcher) {
                    Some(swap) => {
                        let entry = PairMatch { first: i, second: j, swap };
                        r.push(entry);
                        used.set(i, true);
                        used.set(j, true);
                        assert(r@.last() == entry);
                        assert(forall|t: int| 0 <= t < old_r.len() ==> r@[t] == old_r[t]);
                        assert(r@ == old_r.push(entry));
                        assert forall|t: int| 0 <= t < n implies (used@[t] <==> spec_index_used(r@, t)) by {
                            let last = r@.len() - 1;
                            assert(r@[last] == entry);
                            if t == i {
                                assert(r@[last].first == t);
                                assert(used@[t]);
                                assert(spec_index_used(r@, t));
                            } else if t == j {
                                assert(r@[last].second == t);
                                assert(r@[last].first == i);
                                assert(used@[t]);
                                assert(spec_index_used(r@, t));
                            } else {
                                assert(used@[t] == old_used[t]);
                                if spec_index_used(old_r, t) {
                                    let s = choose|s: int| 0 <= s < old_r.len() && (#[trigger] old_r[s].first == t || old_r[s].second == t);
                                    assert(r@[s] == old_r[s]);
                                    assert(r@[s].first == t || r@[s].second == t);
                                }
                                if spec_index_used(r@, t) {
                                    let s = choose|s: int| 0 <= s < r@.len() && (#[trigger] r@[s].first == t || r@[s].second == t);
                                    assert(s != last);
                                    assert(old_r[s] == r@[s]);
                                    assert(old_r[s].first == t || old_r[s].second == t);
                                    assert(spec_index_used(old_r, t));
                                }
                                assert(used@[t] <==> spec_index_used(r@, t));
                            }
                        }
                        assert forall|a: int, b: int|
                            0 <= a < b < n && spec_pair_before(a, b, i as int, (j + 1) as int)
                                implies #[trigger] spec_pair_scanned(orders@, r@, a, b) by {
                            if spec_used_before(r@, a, b) {
                                let s = choose|s: int| 0 <= s < r@.len() && spec_pair_before(#[trigger] r@[s].first as int, r@[s].second as int, a, b) && (r@[s].first == a || r@[s].first == b || r@[s].second == a || r@[s].second == b);
                                assert(s < old_r.len());
                                assert(old_r[s] == r@[s]);
                                assert(spec_used_before(old_r, a, b));
                            }
                            if spec_used_before(old_r, a, b) {
                                let s = choose|s: int| 0 <= s < old_r.len() && spec_pair_before(#[trigger] old_r[s].first as int, old_r[s].second as int, a, b) && (old_r[s].first == a || old_r[s].first == b || old_r[s].second == a || old_r[s].second == b);
                                assert(r@[s] == old_r[s]);
                            }
                            if a == i && b == j {
                                assert(r@[r@.len() - 1].first == a && r@[r@.len() - 1].second == b);
                                assert(spec_chosen(r@, a, b));
                            } else {
                                assert(spec_pair_before(a, b, i as int, j as int));
                                assert(spec_pair_scanned(orders@, old_r, a, b));
                                if spec_chosen(r@, a, b) {
                                    let s = choose|s: int| 0 <= s < r@.len() && #[trigger] r@[s].first == a && r@[s].second == b;
                                    assert(s < old_r.len());
                                    assert(old_r[s] == r@[s]);
                                    assert(spec_chosen(old_r, a, b));
                                }
                                if spec_chosen(old_r, a, b) {
                                    let s = choose|s: int| 0 <= s < old_r.len() && #[trigger] old_r[s].first == a && old_r[s].second == b;
                                    assert(r@[s] == old_r[s]);
                                }
                            }
                        }
                    },
                    None => {
                        assert forall|a: int, b: int|
                            0 <= a < b < n && spec_pair_before(a, b, i as int, (j + 1) as int)
                                implies #[trigger] spec_pair_scanned(orders@, r@, a, b) by {
                            if !(a == i && b == j) {
                                assert(spec_pair_before(a, b, i as int, j as int));
                            }
                        }
                    },
                }
            } else {
                assert forall|a: int, b: int|
                    0 <= a < b < n && spec_pair_before(a, b, i as int, (j + 1) as int)
                        implies #[trigger] spec_pair_scanned(orders@, r@, a, b) by {
                    if !(a == i && b == j) {
                        assert(spec_pair_before(a, b, i as int, j as int));
                    }
                }
            }
            j = j + 1;
        }
        i = i + 1;
    }
    MatchScan { matches: r, stopped_at: None }
}

/// No order belongs to two matches of a cycle: distinct matches found by
/// [`find_matches`] name four distinct orders.
pub proof fn lemma_matches_disjoint(
    orders: Seq<SwapOrder>,
    matcher: AccountIdWords,
    r: Seq<PairMatch>,
    stop: Option<(usize, usize)>,
    k1: int,
    k2: int,
)
    requires
        spec_scan(orders, matcher, r, stop),
        0 <= k1 < k2 < r.len(),
    ensures
        r[k1].first != r[k2].first,
        r[k1].first != r[k2].second,
        r[k1].second != r[k2].first,
        r[k1].second != r[k2].second,
{
    let a = r[k2].first as int;
    let b = r[k2].second as int;
    assert(r[k2].first == a && r[k2].second == b);
    assert(spec_chosen(r, a, b));
    assert(a < b < orders.len());
    assert(spec_pair_scanned(orders, r, a, b));
    assert(spec_pair_before(r[k1].first as int, r[k1].second as int, a, b));
    if r[k1].first == a || r[k1].first == b || r[k1].second == a || r[k1].second == b {
        assert(spec_used_before(r, a, b));
    }
}

/// The matches to settle in one cycle: the first `MAX_BATCH_PAIRS` of those
/// [`find_matches`] finds, and where its scan stopped.
pub fn plan_matching_cycle(orders: &Vec<SwapOrder>, matcher: AccountIdWords) -> (r: MatchScan)
    requires
        spec_orders_wf(orders@),
    ensures
        r.matches@.len() <= MAX_BATCH_PAIRS,
        2 * r.matches@.len() <= MAX_BATCH_SIZE,
        exists|all: Seq<PairMatch>|
            {
                &&& spec_scan(orders@, matcher, all, r.stopped_at)
                &&& r.matches@ == if all.len() > MAX_BATCH_PAIRS {
                    all.take(MAX_BATCH_PAIRS as int)
                } else {
                    all
                }
            },
{
    let all = find_matches(orders, matcher);
    let mut r: Vec<PairMatch> = Vec::new();
    let limit = if all.matches.len() > MAX_BATCH_PAIRS {
        MAX_BATCH_PAIRS
    } else {
        all.matches.len()
    };
    let mut k: usize = 0;
    while k < limit
        invariant
            limit <= all.matches.len(),
            limit <= MAX_BATCH_PAIRS,
            k <= limit,
            r@ == all.matches@.take(k as int),
        decreases limit - k,
    {
        r.push(all.matches[k]);
        k = k + 1;
        assert(r@ =~= all.matches@.take(k as int));
    }
    assert(all.matches@.take(all.matches@.len() as int) =~= all.matches@);
    MatchScan { matches: r, stopped_at: all.stopped_at }
}

/// How the two orders of a settled match are recorded: both as completely
/// filled, or one of them as partially filled.
#[derive(Clone, Copy, Debug, PartialEq, Eq, Structural)]
pub enum FillRecord {
    BothComplete,
    FirstPartial,
    SecondPartial,
}

/// Which order of a match is recorded as partially filled: none when no
/// leftover note is created; otherwise the maker, the order whose ratio of
/// offer to the other's request is the larger (see
/// [`crate::matching::spec_first_is_maker`]).
pub open spec fn spec_fill_record(swap: MatchedSwap) -> FillRecord {
    match swap.leftover_swapp_note {
        None => FillRecord::BothComplete,
        Some(_) => if crate::matching::spec_first_is_maker(swap.swap_note_1, swap.swap_note_2) {
            FillRecord::FirstPartial
        } else {
            FillRecord::SecondPartial
        },
    }
}

/// Decides how the orders of a settled match are recorded
/// (see [`spec_fill_record`]).
pub fn fill_record(swap: &MatchedSwap) -> (r: FillRecord)
    ensures
        r == spec_fill_record(*swap),
{
    match swap.leftover_swapp_note {
        None => FillRecord::BothComplete,
        Some(_) => {
            let n1 = &swap.swap_note_1;
            let n2 = &swap.swap_note_2;
            if ratio_greater(n1.offered.amount, n2.requested.amount, n2.offered.amount, n1.requested.amount) {
                FillRecord::FirstPartial
            } else {
                FillRecord::SecondPartial
            }
        },
    }
}

/// The order recorded as partially filled is the maker of the match, the
/// one whose remainder the leftover note carries on.
pub proof fn lemma_fill_record_names_maker(
    n1: SwapOrder,
    n2: SwapOrder,
    matcher: AccountIdWords,
    m: MatchedSwap,
)
    requires
        spec_match_correct(n1, n2, matcher, m),
    ensures
        spec_fill_record(m) == FillRecord::FirstPartial <==> (m.leftover_swapp_note is Some
            && crate::matching::spec_first_is_maker(n1, n2)),
        spec_fill_record(m) == FillRecord::SecondPartial <==> (m.leftover_swapp_note is Some
            && !crate::matching::spec_first_is_maker(n1, n2)),
        m.leftover_swapp_note matches Some(l) ==> l.creator == crate::matching::spec_maker(n1, n2).creator,
{
}

/// What the batch settlement does next after trying to settle a batch of
/// `len` matches in one transaction.
#[derive(Clone, Copy, Debug, PartialEq, Eq, Structural)]
pub enum BatchDecision {
    /// Stop and report this many settled matches.
    Done(usize),
    /// Settle the first `mid` matches, then (if they settle none) the rest.
    Split(usize),
    /// The batch was a single match: settle it on its own, with its notes
    /// consumed as notes already on chain.
    SettleAlone,
}

/// The decision after trying a batch of `len` matches: an empty batch
/// settles nothing, a settled batch settles all of its matches, a failed
/// batch of several matches is split in half, and a failed batch of one
/// match is retried with that match settled on its own.
pub open spec fn spec_batch_decision(len: usize, batch_settled: bool) -> BatchDecision {
    if len == 0 {
        BatchDecision::Done(0)
    } else if batch_settled {
        BatchDecision::Done(len)
    } else if len > 1 {
        BatchDecision::Split(len / 2)
    } else {
        BatchDecision::SettleAlone
    }
}

/// Decides what follows the attempt to settle a batch of `len` matches
/// (see [`spec_batch_decision`]).
pub fn batch_decision(len: usize, batch_settled: bool) -> (r: BatchDecision)
    ensures
        r == spec_batch_decision(len, batch_settled),
{
    if len == 0 {
        BatchDecision::Done(0)
    } else if batch_settled {
        BatchDecision::Done(len)
    } else if len > 1 {
        BatchDecision::Split(len / 2)
    } else {
        BatchDecision::SettleAlone
    }
}

/// After the first half of a split batch: stop with its count when it
/// settled some matches; otherwise `None`, and the second half is tried.
pub open spec fn spec_after_first_half(first_half_settled: Option<usize>) -> Option<usize> {
    match first_half_settled {
        Some(c) => if c > 0 {
            Some(c)
        } else {
            None
        },
        None => None,
    }
}

/// Decides whether the settlement stops after the first half of a split
/// batch (see [`spec_after_first_half`]).
pub fn after_first_half(first_half_settled: Option<usize>) -> (r: Option<usize>)
    ensures
        r == spec_after_first_half(first_half_settled),
{
    match first_half_settled {
        Some(c) => if c > 0 {
            Some(c)
        } else {
            None
        },
        None => None,
    }
}

/// The course of the batch settlement of `len` live matches from position
/// `start` of a plan on, driven by [`spec_batch_decision`] and
/// [`spec_after_first_half`], where no match goes stale meanwhile:
/// `batch_settles(start, len)` says whether the transaction of such a batch
/// goes through, and `alone_settles(i)` whether match `i` settled on its own
/// does. The first component is what the settlement reports, the number of
/// matches settled (`None` where the last transaction it tried failed); the
/// second is the number of transactions it tries.
pub open spec fn spec_settlement(
    start: int,
    len: usize,
    batch_settles: spec_fn(int, usize) -> bool,
    alone_settles: spec_fn(int) -> bool,
) -> (Option<usize>, nat)
    decreases len,
{
    match spec_batch_decision(len, batch_settles(start, len)) {
        BatchDecision::Done(count) => (Some(count), if len == 0 {
            0nat
        } else {
            1nat
        }),
        BatchDecision::SettleAlone => (
            if alone_settles(start) {
                Some(1usize)
            } else {
                None
            },
            2nat,
        ),
        BatchDecision::Split(mid) => {
            proof {
                assert(0 < mid < len);
            }
            let first = spec_settlement(start, mid, batch_settles, alone_settles);
            match spec_after_first_half(first.0) {
                Some(count) => (Some(count), 1 + first.1),
                None => {
                    let second = spec_settlement(
                        start + mid,
                        (len - mid) as usize,
                        batch_settles,
                        alone_settles,
                    );
                    (second.0, 1 + first.1 + second.1)
                },
            }
        },
    }
}

/// The batch settlement of `len` matches reports at most `len` settled
/// matches, tries at most `3 * len - 1` transactions (one per batch that it
/// tries, and one more for each match that it settles on its own), and,
/// where the first transaction goes through, reports all `len` matches
/// settled after that one transaction.
pub proof fn lemma_settlement_bounded(
    start: int,
    len: usize,
    batch_settles: spec_fn(int, usize) -> bool,
    alone_settles: spec_fn(int) -> bool,
)
    ensures
        ({
            let (reported, tries) = spec_settlement(start, len, batch_settles, alone_settles);
            &&& reported matches Some(count) ==> count <= len
            &&& len > 0 ==> tries <= 3 * len - 1
            &&& len == 0 ==> reported == Some(0usize) && tries == 0
            &&& len > 0 && batch_settles(start, len) ==> reported == Some(len) && tries == 1
        }),
    decreases len,
{
    if len > 1 && !batch_settles(start, len) {
        let mid = len / 2;
        lemma_settlement_bounded(start, mid, batch_settles, alone_settles);
        lemma_settlement_bounded(start + mid, (len - mid) as usize, batch_settles, alone_settles);
    }
}

/// The note identifier `id` is among `open`.
pub open spec fn spec_is_open(open: Seq<String>, id: Seq<char>) -> bool {
    exists|i: int| 0 <= i < open.len() && (#[trigger] open[i])@ == id
}

/// The positions `k < n` of the matches both of whose orders are still open,
/// in increasing order.
pub open spec fn spec_live_positions(ids: Seq<(String, String)>, open: Seq<String>, n: nat) -> Seq<
    usize,
>
    decreases n,
{
    if n == 0 {
        Seq::empty()
    } else {
        let prev = spec_live_positions(ids, open, (n - 1) as nat);
        let k = n - 1;
        if spec_is_open(open, ids[k].0@) && spec_is_open(open, ids[k].1@) {
            prev.push(k as usize)
        } else {
            prev
        }
    }
}

/// The live positions of the first `n` matches are exactly the positions
/// `k < n` at which both note identifiers of match `k` are among the open
/// ones, each listed once, in increasing order.
pub proof fn lemma_live_positions_exact(ids: Seq<(String, String)>, open: Seq<String>, n: nat)
    requires
        n <= ids.len(),
        n <= usize::MAX,
    ensures
        forall|j: int|
            0 <= j < spec_live_positions(ids, open, n).len() ==> (#[trigger] spec_live_positions(
                ids,
                open,
                n,
            )[j]) < n,
        forall|a: int, b: int|
            0 <= a < b < spec_live_positions(ids, open, n).len() ==> (#[trigger] spec_live_positions(
                ids,
                open,
                n,
            )[a]) < (#[trigger] spec_live_positions(ids, open, n)[b]),
        forall|k: int|
            0 <= k < n ==> (#[trigger] spec_live_positions(ids, open, n).contains(k as usize) <==> (
            (exists|i: int| 0 <= i < open.len() && (#[trigger] open[i])@ == ids[k].0@) && (exists|
                i: int,
            |
                0 <= i < open.len() && (#[trigger] open[i])@ == ids[k].1@))),
    decreases n,
{
    if n > 0 {
        let m = (n - 1) as nat;
        lemma_live_positions_exact(ids, open, m);
        let prev = spec_live_positions(ids, open, m);
        let cur = spec_live_positions(ids, open, n);
        assert forall|k: int| 0 <= k < n implies (#[trigger] cur.contains(k as usize) <==> (
        (exists|i: int| 0 <= i < open.len() && (#[trigger] open[i])@ == ids[k].0@) && (exists|
            i: int,
        |
            0 <= i < open.len() && (#[trigger] open[i])@ == ids[k].1@))) by {
            if k < m {
                if cur.contains(k as usize) && cur != prev {
                    let j = choose|j: int| 0 <= j < cur.len() && cur[j] == k as usize;
                    if j == prev.len() {
                        assert(cur[j] == m as usize);
                    } else {
                        assert(cur[j] == prev[j]);
                    }
                }
                if prev.contains(k as usize) && cur != prev {
                    let j = choose|j: int| 0 <= j < prev.len() && prev[j] == k as usize;
                    assert(cur[j] == prev[j]);
                }
            } else {
                if prev.contains(k as usize) {
                    let j = choose|j: int| 0 <= j < prev.len() && prev[j] == k as usize;
                    assert(prev[j] < m);
                }
                if cur != prev {
                    assert(cur[prev.len() as int] == k as usize);
                }
            }
        }
    }
}

fn is_open(open: &Vec<String>, id: &String) -> (r: bool)
    ensures
        r == spec_is_open(open@, id@),
{
    let mut i: usize = 0;
    while i < open.len()
        invariant
            i <= open.len(),
            forall|t: int| 0 <= t < i ==> (#[trigger] open@[t])@ != id@,
        decreases open.len() - i,
    {
        if open[i] == *id {
            return true;
        }
        i = i + 1;
    }
    false
}

/// Returns the positions of the matches whose two orders (given by their
/// note identifiers) are both still open; the others are stale.
pub fn live_match_positions(match_note_ids: &Vec<(String, String)>, open_note_ids: &Vec<String>) -> (r:
    Vec<usize>)
    ensures
        r@ == spec_live_positions(match_note_ids@, open_note_ids@, match_note_ids@.len()),
        forall|a: int, b: int| 0 <= a < b < r@.len() ==> (#[trigger] r@[a]) < (#[trigger] r@[b]),
        forall|k: int|
            0 <= k < match_note_ids@.len() ==> (#[trigger] r@.contains(k as usize) <==> (
            (exists|i: int|
                0 <= i < open_note_ids@.len() && (#[trigger] open_note_ids@[i])@
                    == match_note_ids@[k].0@) && (exists|i: int|
                0 <= i < open_note_ids@.len() && (#[trigger] open_note_ids@[i])@
                    == match_note_ids@[k].1@))),
        forall|j: int| 0 <= j < r@.len() ==> (#[trigger] r@[j]) < match_note_ids@.len(),
{
    let count = match_note_ids.len();
    proof {
        lemma_live_positions_exact(match_note_ids@, open_note_ids@, count as nat);
    }
    let mut r: Vec<usize> = Vec::new();
    let mut k: usize = 0;
    while k < match_note_ids.len()
        invariant
            k <= match_note_ids.len(),
            r@ == spec_live_positions(match_note_ids@, open_note_ids@, k as nat),
        decreases match_note_ids.len() - k,
    {
        let first_open = is_open(open_note_ids, &match_note_ids[k].0);
        let second_open = is_open(open_note_ids, &match_note_ids[k].1);
        if first_open && second_open {
            r.push(k);
        }
        k = k + 1;
    }
    r
}

} // verus!
