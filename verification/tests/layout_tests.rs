use miden_clob::assets::{AccountIdWords, FungibleAssetInfo, FIELD_MODULUS};
use miden_clob::contract_notes::{option_contract_note_inputs, p2id_note_inputs, OPTION_CONTRACT_NOTE_INPUTS_LEN};
use miden_clob::setup::{mint_plan, Mint};

#[test]
fn p2id_inputs_are_suffix_then_prefix() {
    let target = AccountIdWords { prefix: 0xa651_1b8a_76c0_5b10, suffix: 0x9fdb_dccc_e900 };
    assert_eq!(p2id_note_inputs(target), vec![0x9fdb_dccc_e900, 0xa651_1b8a_76c0_5b10]);
}

#[test]
fn option_contract_inputs_layout() {
    let requested = FungibleAssetInfo { faucet: AccountIdWords { prefix: 11, suffix: 22 }, amount: 500 };
    let underwriter = AccountIdWords { prefix: 1, suffix: 2 };
    let buyer = AccountIdWords { prefix: 3, suffix: 4 };
    let inputs = option_contract_note_inputs([91, 92, 93, 94], requested, 0xc000_0000, 1, underwriter, buyer, 1000, true);
    assert_eq!(inputs.len(), OPTION_CONTRACT_NOTE_INPUTS_LEN);
    assert_eq!(inputs, vec![91, 92, 93, 94, 500, 0, 22, 11, 0xc000_0000, 1, 1, 2, 3, 4, 1000, 1]);
    let american = option_contract_note_inputs([0; 4], requested, 7, 1, underwriter, buyer, 5, false);
    assert_eq!(american[15], 0);
}

#[test]
fn option_contract_inputs_reduce_into_the_field() {
    let requested = FungibleAssetInfo { faucet: AccountIdWords { prefix: 11, suffix: 22 }, amount: 1 };
    let id = AccountIdWords { prefix: 1, suffix: 2 };
    let inputs = option_contract_note_inputs([0; 4], requested, 0, FIELD_MODULUS + 9, id, id, FIELD_MODULUS + 3, false);
    assert_eq!(inputs[9], 9);
    assert_eq!(inputs[14], 3);
}

#[test]
fn mint_plan_skips_zero_balances() {
    let balances = vec![vec![50_000, 50], vec![0, 40], vec![0, 0], vec![7, 7]];
    let plan = mint_plan(&balances, 3, 2);
    assert_eq!(
        plan,
        vec![
            Mint { account: 0, faucet: 0, amount: 50_000 },
            Mint { account: 0, faucet: 1, amount: 50 },
            Mint { account: 1, faucet: 1, amount: 40 },
        ]
    );
    assert!(mint_plan(&balances, 0, 2).is_empty());
    assert_eq!(mint_plan(&balances, 4, 1).len(), 2);
}

#[test]
fn mint_plan_of_the_market_maker_setup() {
    let balances = vec![
        vec![50_000, 50],
        vec![40_000, 40],
        vec![30_000, 30],
        vec![20_000, 20],
        vec![10_000_000, 1000],
    ];
    let plan = mint_plan(&balances, 5, 2);
    assert_eq!(plan.len(), 10);
    assert_eq!(plan[9], Mint { account: 4, faucet: 1, amount: 1000 });
}
