use miden_clob::assets::{AccountIdWords, FungibleAssetInfo};
use miden_clob::depth::{aggregate_price_levels, cumulative_sums, depth_book, find_account};
use miden_clob::engine::{fill_record, FillRecord};
use miden_clob::matching::try_match_swapp_notes;
use miden_clob::swapp_note::{swap_order_from_note, swapp_note_inputs, SwapOrder};
use miden_objects::account::AccountId;

fn id(hex: &str) -> AccountIdWords {
    let account = AccountId::from_hex(hex).unwrap();
    AccountIdWords { prefix: account.prefix().as_u64(), suffix: account.suffix().as_int() }
}

fn order(creator: AccountIdWords, offered: FungibleAssetInfo, requested: FungibleAssetInfo) -> SwapOrder {
    let inputs = swapp_note_inputs(requested, 0, 0, 0, creator);
    swap_order_from_note(offered, &inputs, [0; 4]).unwrap()
}

const ALICE: &str = "0xa6511b8a76c05b1000009fdbdccce9";
const BOB: &str = "0xbbb871c76d7a27100000cc8533e494";
const USDC: &str = "0xe125e96a9af535200000a5dc5d4500";
const ETH: &str = "0x34d1b6993361072000005737e7ae4b";

#[test]
fn depth_book_sorts_and_accumulates() {
    let alice = id(ALICE);
    let bob = id(BOB);
    let usdc = id(USDC);
    let eth = id(ETH);
    let a = |faucet, amount| FungibleAssetInfo { faucet, amount };
    let orders = vec![
        order(alice, a(usdc, 2400), a(eth, 1)), // bid at 2400
        order(bob, a(eth, 2), a(usdc, 5000)),   // ask at 2500
        order(bob, a(usdc, 4900), a(eth, 2)),   // bid at 2450
        order(alice, a(eth, 1), a(usdc, 2450)), // ask at 2450
        order(alice, a(usdc, 2450), a(eth, 1)), // bid at 2450, after the other
        order(bob, a(usdc, 10), a(eth, 0)),     // no base amount: skipped
    ];
    let names = vec![bob];
    let book = depth_book(&orders, usdc, &names);
    let bid_order: Vec<usize> = book.bids.iter().map(|e| e.order_index).collect();
    let ask_order: Vec<usize> = book.asks.iter().map(|e| e.order_index).collect();
    assert_eq!(bid_order, vec![2, 4, 0]);
    assert_eq!(ask_order, vec![3, 1]);
    assert_eq!(book.bid_cumulative, vec![4900, 7350, 9750]);
    assert_eq!(book.ask_cumulative, vec![2450, 7450]);
    assert_eq!(book.bids[0].trader, Some(0));
    assert_eq!(book.bids[1].trader, None);
    assert_eq!(book.asks[1].base_amount, 2);
}

#[test]
fn running_totals() {
    assert_eq!(cumulative_sums(&vec![1, 2, 3]), vec![1, 3, 6]);
    assert_eq!(cumulative_sums(&vec![u64::MAX, u64::MAX]), vec![u64::MAX as u128, 2 * (u64::MAX as u128)]);
    assert_eq!(cumulative_sums(&Vec::new()), Vec::<u128>::new());
}

#[test]
fn account_lookup_finds_first() {
    let x = AccountIdWords { prefix: 1, suffix: 0 };
    let y = AccountIdWords { prefix: 2, suffix: 0 };
    assert_eq!(find_account(&vec![y, x, x], x), Some(1));
    assert_eq!(find_account(&vec![y], x), None);
}

#[test]
fn price_levels_group_orders() {
    let keys = vec![250000, 245000, 250000, 260000];
    let quantities = vec![3, 5, 7, 1];
    let levels = aggregate_price_levels(&keys, &quantities);
    let summary: Vec<(u64, u128, usize, u128)> = levels
        .iter()
        .map(|l| (l.price_key, l.quantity, l.order_count, l.cumulative_quantity))
        .collect();
    assert_eq!(summary, vec![(260000, 1, 1, 1), (250000, 10, 2, 11), (245000, 5, 1, 16)]);
    assert!(aggregate_price_levels(&Vec::new(), &Vec::new()).is_empty());
}

#[test]
fn fill_records_name_the_partial_order() {
    let alice = id(ALICE);
    let bob = id(BOB);
    let usdc = id(USDC);
    let eth = id(ETH);
    let a = |faucet, amount| FungibleAssetInfo { faucet, amount };
    let maker = order(alice, a(usdc, 150), a(eth, 90));
    let taker = order(bob, a(eth, 60), a(usdc, 50));
    let m = try_match_swapp_notes(&maker, &taker, alice).unwrap();
    assert_eq!(fill_record(&m), FillRecord::FirstPartial);
    let m = try_match_swapp_notes(&taker, &maker, alice).unwrap();
    assert_eq!(fill_record(&m), FillRecord::SecondPartial);
    let full = order(bob, a(eth, 100), a(usdc, 100));
    let m = try_match_swapp_notes(&maker, &full, alice).unwrap();
    assert_eq!(fill_record(&m), FillRecord::BothComplete);
    // Both orders by the same creator: the maker is still the one recorded.
    let own_taker = order(alice, a(eth, 60), a(usdc, 50));
    let m = try_match_swapp_notes(&own_taker, &maker, alice).unwrap();
    assert_eq!(fill_record(&m), FillRecord::SecondPartial);
}
