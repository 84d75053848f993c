use miden_clob::assets::{AccountIdWords, FungibleAssetInfo, FIELD_MODULUS, MAX_AMOUNT};
use miden_clob::compute_partial_swapp;
use miden_clob::engine::{
    find_matches, partial_fill_divides_by_zero, plan_matching_cycle, MAX_BATCH_PAIRS, MAX_BATCH_SIZE,
};
use miden_clob::matching::try_match_swapp_notes;
use miden_clob::pricing::price_to_swap_order;
use miden_clob::tags::{account_note_tag, swap_note_tag};
use miden_clob::swapp_note::{
    decompose_swapp_note, get_p2id_serial_num, next_swap_serial_num, swap_order_from_note,
    swapp_note_inputs, swapp_note_inputs_for, SwapOrder, SwappNoteError,
};
use miden_objects::account::AccountId;

fn id(hex: &str) -> AccountIdWords {
    let account = AccountId::from_hex(hex).unwrap();
    AccountIdWords { prefix: account.prefix().as_u64(), suffix: account.suffix().as_int() }
}

fn asset(faucet: AccountIdWords, amount: u64) -> FungibleAssetInfo {
    FungibleAssetInfo { faucet, amount }
}

/// The order that a SWAPP note built like `create_partial_swap_note` describes.
fn order(
    creator: AccountIdWords,
    offered: FungibleAssetInfo,
    requested: FungibleAssetInfo,
    serial_num: [u64; 4],
    swap_count: u64,
) -> SwapOrder {
    let inputs = swapp_note_inputs(requested, 0, 0, swap_count, creator);
    swap_order_from_note(offered, &inputs, serial_num).unwrap()
}

const ALICE: &str = "0xa6511b8a76c05b1000009fdbdccce9";
const BOB: &str = "0xbbb871c76d7a27100000cc8533e494";
const FAUCET_A: &str = "0xe125e96a9af535200000a5dc5d4500";
const FAUCET_B: &str = "0x34d1b6993361072000005737e7ae4b";

#[test]
fn test_compute_partial_swapp_math() {
    let amount_b_in = 25;
    let (amount_a_1, new_amount_a, new_amount_b) = compute_partial_swapp(100, 50, amount_b_in);
    println!("==== test_compute_partial_swapp ====");
    println!("amount_a_1 (A out):          {}", amount_a_1);
    println!("amount_b_1 (B in):           {}", amount_b_in);
    println!("new_amount_a (A leftover):   {}", new_amount_a);
    println!("new_amount_b (B leftover):   {}", new_amount_b);
    assert_eq!(amount_a_1, 50);
    assert_eq!(amount_b_in, 25);
    assert_eq!(new_amount_a, 50);
    assert_eq!(new_amount_b, 25);

    let amount_b_in = 2500;
    let (amount_a_1, new_amount_a, new_amount_b) = compute_partial_swapp(5000, 5000, amount_b_in);
    assert_eq!(amount_a_1, 2500);
    assert_eq!(amount_b_in, 2500);
    assert_eq!(new_amount_a, 2500);
    assert_eq!(new_amount_b, 2500);
}

#[test]
fn test_compute_partial_swapp() {
    let amount_b_in = 25;
    let (amount_a_1, new_amount_a, new_amount_b) = compute_partial_swapp(100, 50, amount_b_in);
    println!("==== test_compute_partial_swapp ====");
    println!("amount_a_1 (A out):          {}", amount_a_1);
    println!("amount_b_1 (B in):           {}", amount_b_in);
    println!("new_amount_a (A leftover):   {}", new_amount_a);
    println!("new_amount_b (B leftover):   {}", new_amount_b);
    assert_eq!(amount_a_1, 50);
    assert_eq!(amount_b_in, 25);
    assert_eq!(new_amount_a, 50);
    assert_eq!(new_amount_b, 25);

    let amount_b_in = 2500;
    let (amount_a_1, new_amount_a, new_amount_b) = compute_partial_swapp(5000, 5000, amount_b_in);
    assert_eq!(amount_a_1, 2500);
    assert_eq!(amount_b_in, 2500);
    assert_eq!(new_amount_a, 2500);
    assert_eq!(new_amount_b, 2500);
}

#[test]
fn swap_note_test_test_compute_partial_swapp_edge_case() {
    let amount_b_in = 522;
    let (amount_a_1, new_amount_a, new_amount_b) = compute_partial_swapp(1368162, 522, amount_b_in);
    println!("==== test_compute_partial_swapp ====");
    println!("amount_a_1 (A out):          {}", amount_a_1);
    println!("amount_b_1 (B in):           {}", amount_b_in);
    println!("new_amount_a (A leftover):   {}", new_amount_a);
    println!("new_amount_b (B leftover):   {}", new_amount_b);
}

#[test]
fn compute_partial_swapp_is_exact_and_caps() {
    // The product is exact even where it does not fit in a u64.
    let (out, left_offer, left_request) = compute_partial_swapp(u64::MAX, 2, 2);
    assert_eq!((out, left_offer, left_request), (u64::MAX, 0, 0));
    let (out, left_offer, left_request) = compute_partial_swapp(1 << 62, 4, 4);
    assert_eq!((out, left_offer, left_request), (1 << 62, 0, 0));
    let (out, left_offer, left_request) = compute_partial_swapp(1 << 62, 8, 3);
    assert_eq!((out, left_offer, left_request), (3 << 59, 5 << 59, 5));
    // Overfilling caps the amount sent out at the offer.
    let (out, left_offer, left_request) = compute_partial_swapp(100, 50, 80);
    assert_eq!(out, 100);
    assert_eq!(left_offer, 0);
    assert_eq!(left_request, 0);
    // Rounding down.
    let (out, left_offer, left_request) = compute_partial_swapp(10, 3, 1);
    assert_eq!((out, left_offer, left_request), (3, 7, 2));
}

#[test]
fn test_try_match_swapp_notes_arithmetic_case2() {
    let maker_id = id(ALICE);
    let taker_id = id(BOB);
    let matcher = id(ALICE);
    let faucet_a = id(FAUCET_A);
    let faucet_b = id(FAUCET_B);

    // maker: 150 A  → 90 B
    let maker_note = order(maker_id, asset(faucet_a, 150), asset(faucet_b, 90), [0; 4], 0);
    // taker: 60 B  → 50 A
    let taker_note = order(taker_id, asset(faucet_b, 60), asset(faucet_a, 50), [0; 4], 0);

    let swap = try_match_swapp_notes(&maker_note, &taker_note, matcher).expect("orders should cross");

    let p2id_a_out = swap.p2id_from_1_to_2.asset;
    assert_eq!(p2id_a_out.amount, 60);
    assert_eq!(p2id_a_out.faucet, faucet_b);

    let p2id_b_out = swap.p2id_from_2_to_1.asset;
    assert_eq!(p2id_b_out.amount, 50);
    assert_eq!(p2id_b_out.faucet, faucet_a);

    let leftover = swap.leftover_swapp_note.as_ref().expect("maker not 100 % filled");
    let left_inputs = swapp_note_inputs(leftover.requested, 0, 0, leftover.swap_count, leftover.creator);
    let (left_off, left_req) = decompose_swapp_note(leftover.offered, &left_inputs);
    assert_eq!(left_off.amount, 50);
    assert_eq!(left_off.faucet, faucet_a);
    assert_eq!(left_req.amount, 30);
    assert_eq!(left_req.faucet, faucet_b);

    assert_eq!(swap.note1_args[3], 60);
    assert_eq!(swap.note2_args[3], 50);
}

#[test]
fn test_create_partial_swap_note_with_different_amounts() {
    let maker_id = id(ALICE);
    let faucet_a = id(FAUCET_A);
    let faucet_b = id(FAUCET_B);

    // Maker offers 100 A, wants 80 B
    let inputs = swapp_note_inputs(asset(faucet_b, 80), 0, 0, 0, maker_id);
    let (offered, wanted) = decompose_swapp_note(asset(faucet_a, 100), &inputs);
    assert_eq!(offered.amount, 100);
    assert_eq!(offered.faucet, faucet_a);
    assert_eq!(wanted.amount, 80);
    assert_eq!(wanted.faucet, faucet_b);
}

#[test]
fn pure_math_algo_match_test_test_price_to_swap_note_match() {
    let trader_1 = id(ALICE);
    let trader_2 = id(ALICE);
    let matcher_id = id(ALICE);
    let faucet_a = id(FAUCET_A);
    let faucet_b = id(FAUCET_B);

    let (off1, req1) = price_to_swap_order(false, 2490, 2, faucet_a, faucet_b).unwrap();
    let (off2, req2) = price_to_swap_order(true, 2500, 1, faucet_a, faucet_b).unwrap();
    let swap_note_1 = order(trader_1, off1, req1, [0; 4], 0);
    let swap_note_2 = order(trader_2, off2, req2, [0; 4], 0);

    let swap_data = try_match_swapp_notes(&swap_note_1, &swap_note_2, matcher_id);
    println!("swap data: {:?}", swap_data);
}

#[test]
fn match_swap_notes_algo_test() {
    let trader_1 = id(ALICE);
    let trader_2 = id(ALICE);
    let matcher_id = id(ALICE);
    let faucet_a = id(FAUCET_A);
    let faucet_b = id(FAUCET_B);

    let swap_note_1 = order(trader_1, asset(faucet_a, 438), asset(faucet_b, 1081860), [0; 4], 0);
    let swap_note_2 = order(trader_2, asset(faucet_b, 1120588), asset(faucet_a, 434), [0; 4], 0);

    let swap_data = try_match_swapp_notes(&swap_note_1, &swap_note_2, matcher_id);
    println!("swap {:?}", swap_data.unwrap().p2id_from_1_to_2);
}

#[test]
fn full_fill_pays_each_side_what_it_requested() {
    let alice = id(ALICE);
    let bob = id(BOB);
    let matcher = id(FAUCET_A);
    let faucet_a = id(FAUCET_A);
    let faucet_b = id(FAUCET_B);
    // Alice 100 A -> 100 B, Bob 120 B -> 90 A: both offer more than the other wants.
    let n1 = order(alice, asset(faucet_a, 100), asset(faucet_b, 100), [1, 2, 3, 4], 0);
    let n2 = order(bob, asset(faucet_b, 120), asset(faucet_a, 90), [5, 6, 7, 8], 3);
    let m = try_match_swapp_notes(&n1, &n2, matcher).unwrap();
    assert!(m.leftover_swapp_note.is_none());
    assert_eq!(m.p2id_from_1_to_2.asset, asset(faucet_b, 100));
    assert_eq!(m.p2id_from_1_to_2.target, alice);
    assert_eq!(m.p2id_from_2_to_1.asset, asset(faucet_a, 90));
    assert_eq!(m.p2id_from_2_to_1.target, bob);
    assert_eq!(m.note1_args, [0, 0, 0, 100]);
    assert_eq!(m.note2_args, [0, 0, 0, 90]);
    assert_eq!(m.p2id_from_1_to_2.sender, matcher);
    assert_eq!(m.p2id_from_1_to_2.serial_num, get_p2id_serial_num([1, 2, 3, 4], 1));
    assert_eq!(m.p2id_from_2_to_1.serial_num, get_p2id_serial_num([5, 6, 7, 8], 4));
}

#[test]
fn no_match_cases() {
    let alice = id(ALICE);
    let bob = id(BOB);
    let faucet_a = id(FAUCET_A);
    let faucet_b = id(FAUCET_B);
    // Same direction: both offer A.
    let n1 = order(alice, asset(faucet_a, 100), asset(faucet_b, 100), [0; 4], 0);
    let n2 = order(bob, asset(faucet_a, 100), asset(faucet_b, 100), [0; 4], 0);
    assert!(try_match_swapp_notes(&n1, &n2, alice).is_none());
    // Prices do not cross: 100 A for 100 B against 50 B for 60 A.
    let n3 = order(bob, asset(faucet_b, 50), asset(faucet_a, 60), [0; 4], 0);
    assert!(try_match_swapp_notes(&n1, &n3, alice).is_none());
}

#[test]
fn leftover_carries_on_the_maker() {
    let alice = id(ALICE);
    let bob = id(BOB);
    let matcher = id(FAUCET_B);
    let faucet_a = id(FAUCET_A);
    let faucet_b = id(FAUCET_B);
    let maker = order(alice, asset(faucet_a, 150), asset(faucet_b, 90), [9, 9, 9, FIELD_MODULUS - 1], 2);
    let taker = order(bob, asset(faucet_b, 60), asset(faucet_a, 50), [0; 4], 0);
    // The taker is given first: the maker is then the second order.
    let m = try_match_swapp_notes(&taker, &maker, matcher).unwrap();
    let l = m.leftover_swapp_note.unwrap();
    assert_eq!(l.creator, alice);
    assert_eq!(l.last_consumer, matcher);
    assert_eq!(l.offered, asset(faucet_a, 50));
    assert_eq!(l.requested, asset(faucet_b, 30));
    assert_eq!(l.swap_count, 3);
    // The serial number's last element wraps around the field modulus.
    assert_eq!(l.serial_num, [9, 9, 9, 0]);
    assert_eq!(m.p2id_from_1_to_2.asset, asset(faucet_a, 50));
    assert_eq!(m.p2id_from_2_to_1.asset, asset(faucet_b, 60));
    assert_eq!(m.note1_args, [0, 0, 0, 50]);
    assert_eq!(m.note2_args, [0, 0, 0, 60]);
}

#[test]
fn next_serial_num_increments_in_the_field() {
    assert_eq!(next_swap_serial_num([1, 2, 3, 4]), [1, 2, 3, 5]);
    assert_eq!(next_swap_serial_num([1, 2, 3, FIELD_MODULUS - 1]), [1, 2, 3, 0]);
}

#[test]
fn p2id_serial_num_is_a_hash() {
    let serial = [1, 2, 3, 4];
    let a = get_p2id_serial_num(serial, 1);
    let b = get_p2id_serial_num(serial, 2);
    assert_ne!(a, serial);
    assert_ne!(a, [1, 0, 0, 0]);
    assert_ne!(a, b);
    assert_eq!(a, get_p2id_serial_num(serial, 1));
    // A count at the modulus is the same field element as zero.
    assert_eq!(get_p2id_serial_num(serial, FIELD_MODULUS), get_p2id_serial_num(serial, 0));
}

#[test]
fn swapp_note_errors() {
    let alice = id(ALICE);
    let faucet_a = id(FAUCET_A);
    let faucet_b = id(FAUCET_B);
    let read = |inputs: Vec<u64>| swap_order_from_note(asset(faucet_a, 1), &inputs, [0; 4]).err();
    assert_eq!(read(vec![1, 0, 0]), Some(SwappNoteError::MissingRequestedAsset));
    // Suffix with a nonzero low byte is not an account identifier.
    assert_eq!(read(vec![1, 0, 1, faucet_b.prefix]), Some(SwappNoteError::InvalidRequestedFaucet));
    // Alice's account is not a fungible faucet.
    assert_eq!(read(vec![1, 0, alice.suffix, alice.prefix]), Some(SwappNoteError::InvalidRequestedAsset));
    // An amount above the maximum is refused.
    assert_eq!(
        read(vec![MAX_AMOUNT + 1, 0, faucet_b.suffix, faucet_b.prefix]),
        Some(SwappNoteError::InvalidRequestedAsset)
    );
    let short = vec![1, 0, faucet_b.suffix, faucet_b.prefix];
    assert_eq!(swap_order_from_note(asset(faucet_a, 1), &short, [0; 4]).err(), Some(SwappNoteError::MissingCreator));
    let mut bad_creator = swapp_note_inputs(asset(faucet_b, 1), 0, 0, 0, alice);
    bad_creator[13] = 5;
    assert_eq!(
        swap_order_from_note(asset(faucet_a, 1), &bad_creator, [0; 4]).err(),
        Some(SwappNoteError::InvalidCreator)
    );
}

#[test]
fn swapp_note_inputs_layout_roundtrip() {
    let alice = id(ALICE);
    let faucet_a = id(FAUCET_A);
    let faucet_b = id(FAUCET_B);
    let inputs = swapp_note_inputs(asset(faucet_b, 77), 11, 22, 5, alice);
    assert_eq!(
        inputs,
        vec![77, 0, faucet_b.suffix, faucet_b.prefix, 11, 22, 0, 0, 5, 0, 0, 0, alice.prefix, alice.suffix]
    );
    let o = swap_order_from_note(asset(faucet_a, 3), &inputs, [4, 3, 2, 1]).unwrap();
    assert_eq!(o.requested, asset(faucet_b, 77));
    assert_eq!(o.offered, asset(faucet_a, 3));
    assert_eq!(o.creator, alice);
    assert_eq!(o.swap_count, 5);
    assert_eq!(o.serial_num, [4, 3, 2, 1]);
    // The swap count is stored as a field element.
    let wrapped = swapp_note_inputs(asset(faucet_b, 77), 11, 22, FIELD_MODULUS + 2, alice);
    assert_eq!(wrapped[8], 2);
}

#[test]
fn greedy_matching_uses_each_order_once() {
    let alice = id(ALICE);
    let bob = id(BOB);
    let faucet_a = id(FAUCET_A);
    let faucet_b = id(FAUCET_B);
    let ask1 = order(alice, asset(faucet_a, 10), asset(faucet_b, 100), [0; 4], 0);
    let ask2 = order(alice, asset(faucet_a, 10), asset(faucet_b, 100), [1, 0, 0, 0], 0);
    let bid1 = order(bob, asset(faucet_b, 100), asset(faucet_a, 10), [2, 0, 0, 0], 0);
    let bid2 = order(bob, asset(faucet_b, 50), asset(faucet_a, 10), [3, 0, 0, 0], 0);
    let orders = vec![ask1, ask2, bid1, bid2];
    let found = find_matches(&orders, alice);
    // (0, 2) crosses; (1, 3) does not (50 B for 10 A is below 100 B); nothing else is free.
    assert_eq!(found.stopped_at, None);
    assert_eq!(found.matches.len(), 1);
    assert_eq!((found.matches[0].first, found.matches[0].second), (0, 2));
    let planned = plan_matching_cycle(&orders, alice);
    assert_eq!(planned.matches.len(), 1);
    assert!(MAX_BATCH_SIZE == 50);
}

#[test]
fn matching_cycle_keeps_at_most_a_batch() {
    let alice = id(ALICE);
    let bob = id(BOB);
    let faucet_a = id(FAUCET_A);
    let faucet_b = id(FAUCET_B);
    let mut orders = Vec::new();
    for k in 0..60u64 {
        orders.push(order(alice, asset(faucet_a, 10), asset(faucet_b, 10), [k, 0, 0, 0], 0));
        orders.push(order(bob, asset(faucet_b, 10), asset(faucet_a, 10), [k, 1, 0, 0], 0));
    }
    let found = find_matches(&orders, alice);
    assert_eq!(found.matches.len(), 60);
    assert_eq!((found.matches[0].first, found.matches[0].second), (0, 1));
    assert_eq!((found.matches[1].first, found.matches[1].second), (2, 3));
    let planned = plan_matching_cycle(&orders, alice);
    assert_eq!(planned.matches.len(), MAX_BATCH_PAIRS);
    assert_eq!(2 * MAX_BATCH_PAIRS, MAX_BATCH_SIZE);
    assert_eq!(planned.stopped_at, None);
}

#[test]
fn price_orders_cross_when_bid_at_least_ask() {
    let alice = id(ALICE);
    let bob = id(BOB);
    let faucet_a = id(FAUCET_A);
    let faucet_b = id(FAUCET_B);
    let (ao, ar) = price_to_swap_order(false, 2500, 3, faucet_a, faucet_b).unwrap();
    assert_eq!(ao, asset(faucet_a, 3));
    assert_eq!(ar, asset(faucet_b, 7500));
    let (bo, br) = price_to_swap_order(true, 2499, 3, faucet_a, faucet_b).unwrap();
    assert_eq!(bo, asset(faucet_b, 7497));
    assert_eq!(br, asset(faucet_a, 3));
    let ask = order(alice, ao, ar, [0; 4], 0);
    let low_bid = order(bob, bo, br, [0; 4], 0);
    assert!(try_match_swapp_notes(&ask, &low_bid, alice).is_none());
    let (bo, br) = price_to_swap_order(true, 2500, 3, faucet_a, faucet_b).unwrap();
    let bid = order(bob, bo, br, [0; 4], 0);
    assert!(try_match_swapp_notes(&ask, &bid, alice).is_some());
}

#[test]
fn price_orders_refused() {
    let alice = id(ALICE);
    let faucet_a = id(FAUCET_A);
    let faucet_b = id(FAUCET_B);
    assert!(price_to_swap_order(true, u64::MAX, 2, faucet_a, faucet_b).is_none());
    assert!(price_to_swap_order(true, MAX_AMOUNT, 2, faucet_a, faucet_b).is_none());
    assert!(price_to_swap_order(false, 1, 1, alice, faucet_b).is_none());
}

#[test]
fn matching_stops_at_a_fill_that_divides_by_zero() {
    let alice = id(ALICE);
    let bob = id(BOB);
    let faucet_a = id(FAUCET_A);
    let faucet_b = id(FAUCET_B);
    // The second order is the maker and requests nothing.
    let nothing_for_nothing = order(alice, asset(faucet_a, 0), asset(faucet_b, 0), [0; 4], 0);
    let gift = order(bob, asset(faucet_b, 5), asset(faucet_a, 0), [1, 0, 0, 0], 0);
    assert!(partial_fill_divides_by_zero(&nothing_for_nothing, &gift));
    let scan = find_matches(&vec![nothing_for_nothing, gift], alice);
    assert_eq!(scan.stopped_at, Some((0, 1)));
    assert!(scan.matches.is_empty());
    // A pair that is never tried does not stop the scan.
    let empty_reply = order(bob, asset(faucet_b, 0), asset(faucet_a, 0), [2, 0, 0, 0], 0);
    let scan = find_matches(&vec![nothing_for_nothing, empty_reply, gift], alice);
    assert_eq!(scan.stopped_at, None);
    assert_eq!(scan.matches.len(), 1);
    assert_eq!((scan.matches[0].first, scan.matches[0].second), (0, 1));
    assert!(scan.matches[0].swap.leftover_swapp_note.is_none());
}

#[test]
fn matcher_keeps_the_spread_and_orders_trade_at_their_limit() {
    let alice = id(ALICE);
    let bob = id(BOB);
    let matcher = id(FAUCET_B);
    let faucet_a = id(FAUCET_A);
    let faucet_b = id(FAUCET_B);
    // Alice sells 150 A for 90 B; Bob pays 60 B for 50 A.
    let maker = order(alice, asset(faucet_a, 150), asset(faucet_b, 90), [0; 4], 0);
    let taker = order(bob, asset(faucet_b, 60), asset(faucet_a, 50), [1, 0, 0, 0], 0);
    let m = try_match_swapp_notes(&maker, &taker, matcher).unwrap();
    let l = m.leftover_swapp_note.unwrap();
    // What the matcher keeps of each asset: both offers in, both payments and the leftover out.
    let net_a = 150i128 - m.p2id_from_2_to_1.asset.amount as i128 - l.offered.amount as i128;
    let net_b = 60i128 - m.p2id_from_1_to_2.asset.amount as i128;
    assert_eq!((net_a, net_b), (50, 0));
    // Alice gives 100 A for 60 B (her limit is 90 B per 150 A); Bob gives 60 B for 50 A.
    let alice_gives = 150 - l.offered.amount;
    assert_eq!(alice_gives, 100);
    assert!(alice_gives * 90 <= m.p2id_from_1_to_2.asset.amount * 150);
    assert!(60 * 50 <= m.p2id_from_2_to_1.asset.amount * 60);
    // One order is carried on, and the other is paid exactly what it requested.
    assert_eq!(l.creator, alice);
    assert_eq!(m.p2id_from_2_to_1.asset, taker.requested);
}

#[test]
fn test_try_match_swapp_notes_arithmetic_case4() {
    let maker_id = id(ALICE);
    let taker_id = id(BOB);
    let matcher = id(ALICE);
    let faucet_a = id(FAUCET_A);
    let faucet_b = id(FAUCET_B);

    let maker_note = order(maker_id, asset(faucet_a, 600), asset(faucet_b, 1455600), [0; 4], 0);
    let taker_note = order(taker_id, asset(faucet_b, 173737), asset(faucet_a, 71), [0; 4], 0);

    let swap = try_match_swapp_notes(&maker_note, &taker_note, matcher).expect("orders should cross");
    let p2id_a_out = swap.p2id_from_1_to_2.asset;
    let p2id_b_out = swap.p2id_from_2_to_1.asset;
    let leftover = swap.leftover_swapp_note.as_ref().expect("maker not 100 % filled");
    let left_inputs = swapp_note_inputs(leftover.requested, 0, 0, leftover.swap_count, leftover.creator);
    let (left_off, left_req) = decompose_swapp_note(leftover.offered, &left_inputs);
    // 600 * 173737 / 1455600 = 71 A go out of the maker's order.
    assert_eq!(p2id_a_out, asset(faucet_b, 173737));
    assert_eq!(p2id_b_out, asset(faucet_a, 71));
    assert_eq!(left_off, asset(faucet_a, 529));
    assert_eq!(left_req, asset(faucet_b, 1281863));
}

#[test]
fn matcher_keeps_value_when_the_product_is_large() {
    let alice = id(ALICE);
    let bob = id(BOB);
    let faucet_a = id(FAUCET_A);
    let faucet_b = id(FAUCET_B);
    // Maker offer times taker offer does not fit in a u64.
    let maker = order(alice, asset(faucet_a, 1 << 62), asset(faucet_b, 1 << 62), [0; 4], 0);
    let taker = order(bob, asset(faucet_b, 8), asset(faucet_a, 4), [1, 0, 0, 0], 0);
    let m = try_match_swapp_notes(&maker, &taker, alice).unwrap();
    let l = m.leftover_swapp_note.unwrap();
    // The maker gives up 8 A: 4 to the taker, 4 kept by the matcher.
    assert_eq!(l.offered, asset(faucet_a, (1 << 62) - 8));
    assert_eq!(m.p2id_from_2_to_1.asset, asset(faucet_a, 4));
    let net_a = (1i128 << 62) - 4 - l.offered.amount as i128;
    assert_eq!(net_a, 4);
}

#[test]
fn note_inputs_carry_the_tags_of_the_order() {
    let alice = id(ALICE);
    let faucet_a = id(FAUCET_A);
    let faucet_b = id(FAUCET_B);
    let inputs = swapp_note_inputs_for(asset(faucet_a, 150), asset(faucet_b, 90), 0, alice);
    // Local public swap tag: top bytes of the offered and requested faucet prefixes.
    let swap = 0x8000_0000u64 | ((faucet_a.prefix >> 56) << 8) | (faucet_b.prefix >> 56);
    assert_eq!(inputs[4], swap);
    assert_eq!(swap_note_tag(asset(faucet_a, 150), asset(faucet_b, 90)) as u64, swap);
    // Alice's account is local: 0b11, then the 14 high bits of her prefix.
    let account = 0xc000_0000u64 | ((alice.prefix >> 34) & 0xffff_0000);
    assert_eq!(inputs[5], account);
    assert_eq!(account_note_tag(alice) as u64, account);
    assert_eq!(inputs, swapp_note_inputs(asset(faucet_b, 90), swap as u32, account as u32, 0, alice));
}
