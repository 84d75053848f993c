//! The input layouts of the other notes the order book builds: the P2ID note
//! that pays an account, and the option contract note.
use crate::assets::{felt_canonical, spec_account_id_valid, AccountIdWords, FungibleAssetInfo, FIELD_MODULUS};
use crate::tags::{account_note_tag, spec_account_tag};
use crate::swapp_note::spec_asset_word;
use vstd::prelude::*;

verus! {

/// Number of inputs of a P2ID note.
pub const P2ID_NOTE_INPUTS_LEN: usize = 2;

/// Number of inputs of an option contract note.
pub const OPTION_CONTRACT_NOTE_INPUTS_LEN: usize = 16;

/// The inputs of a P2ID note that pays `target`: its suffix, then its prefix.
pub open spec fn spec_p2id_note_inputs(target: AccountIdWords) -> Seq<u64> {
    seq![target.suffix, target.prefix]
}

/// Builds the inputs of a P2ID note (see [`spec_p2id_note_inputs`]).
pub fn p2id_note_inputs(target: AccountIdWords) -> (r: Vec<u64>)
    ensures
        r@ == spec_p2id_note_inputs(target),
        r@.len() == P2ID_NOTE_INPUTS_LEN,
        r@[0] == target.suffix && r@[1] == target.prefix,
{
    let r = vec![target.suffix, target.prefix];
    assert(r@ =~= spec_p2id_note_inputs(target));
    r
}

/// The inputs of an option contract note: the recipient digest of the note
/// that pays the underwriter back, the requested asset word, the payback
/// tag and execution hint, the underwriter's and the buyer's prefix and
/// suffix, the expiration, and whether the option is European (1) or not (0).
pub open spec fn spec_option_contract_note_inputs(
    payback_recipient: Seq<u64>,
    requested: FungibleAssetInfo,
    payback_tag: u32,
    execution_hint: u64,
    underwriter: AccountIdWords,
    buyer: AccountIdWords,
    expiration: u64,
    is_european: bool,
) -> Seq<u64> {
    payback_recipient + spec_asset_word(requested) + seq![
        payback_tag as u64,
        (execution_hint % FIELD_MODULUS) as u64,
        underwriter.prefix,
        underwriter.suffix,
        buyer.prefix,
        buyer.suffix,
        (expiration % FIELD_MODULUS) as u64,
        if is_european {
            1u64
        } else {
            0u64
        },
    ]
}

/// The inputs of an option contract note are sixteen values, by position:
/// the payback recipient digest (0 to 3), the requested amount, 0, the
/// requested faucet's suffix and prefix (4 to 7), the payback tag, the
/// execution hint, the underwriter's prefix and suffix, the buyer's prefix
/// and suffix, the expiration, and 1 for a European option or 0.
pub proof fn lemma_option_contract_note_inputs_positions(
    payback_recipient: Seq<u64>,
    requested: FungibleAssetInfo,
    payback_tag: u32,
    execution_hint: u64,
    underwriter: AccountIdWords,
    buyer: AccountIdWords,
    expiration: u64,
    is_european: bool,
)
    requires
        payback_recipient.len() == 4,
    ensures
        ({
            let v = spec_option_contract_note_inputs(
                payback_recipient,
                requested,
                payback_tag,
                execution_hint,
                underwriter,
                buyer,
                expiration,
                is_european,
            );
            &&& v.len() == 16
            &&& v.subrange(0, 4) == payback_recipient
            &&& v[4] == requested.amount && v[5] == 0
            &&& v[6] == requested.faucet.suffix && v[7] == requested.faucet.prefix
            &&& v[8] == payback_tag as u64
            &&& v[9] == execution_hint % FIELD_MODULUS
            &&& v[10] == underwriter.prefix && v[11] == underwriter.suffix
            &&& v[12] == buyer.prefix && v[13] == buyer.suffix
            &&& v[14] == expiration % FIELD_MODULUS
            &&& v[15] == (if is_european {
                1u64
            } else {
                0u64
            })
        }),
{
    let v = spec_option_contract_note_inputs(
        payback_recipient,
        requested,
        payback_tag,
        execution_hint,
        underwriter,
        buyer,
        expiration,
        is_european,
    );
    assert(v.subrange(0, 4) =~= payback_recipient);
}

/// Builds the inputs of an option contract note
/// (see [`spec_option_contract_note_inputs`]).
pub fn option_contract_note_inputs(
    payback_recipient: [u64; 4],
    requested: FungibleAssetInfo,
    payback_tag: u32,
    execution_hint: u64,
    underwriter: AccountIdWords,
    buyer: AccountIdWords,
    expiration: u64,
    is_european: bool,
) -> (r: Vec<u64>)
    ensures
        r@ == spec_option_contract_note_inputs(
            payback_recipient@,
            requested,
            payback_tag,
            execution_hint,
            underwriter,
            buyer,
            expiration,
            is_european,
        ),
        r@.len() == OPTION_CONTRACT_NOTE_INPUTS_LEN,
        r@.subrange(0, 4) == payback_recipient@,
        r@[4] == requested.amount && r@[5] == 0,
        r@[6] == requested.faucet.suffix && r@[7] == requested.faucet.prefix,
        r@[8] == payback_tag as u64 && r@[9] == execution_hint % FIELD_MODULUS,
        r@[10] == underwriter.prefix && r@[11] == underwriter.suffix,
        r@[12] == buyer.prefix && r@[13] == buyer.suffix,
        r@[14] == expiration % FIELD_MODULUS,
        r@[15] == (if is_european {
            1u64
        } else {
            0u64
        }),
{
    proof {
        lemma_option_contract_note_inputs_positions(
            payback_recipient@,
            requested,
            payback_tag,
            execution_hint,
            underwriter,
            buyer,
            expiration,
            is_european,
        );
    }
    let hint = felt_canonical(execution_hint);
    let expires = felt_canonical(expiration);
    let european: u64 = if is_european {
        1
    } else {
        0
    };
    let r = vec![
        payback_recipient[0],
        payback_recipient[1],
        payback_recipient[2],
        payback_recipient[3],
        requested.amount,
        0u64,
        requested.faucet.suffix,
        requested.faucet.prefix,
        payback_tag as u64,
        hint,
        underwriter.prefix,
        underwriter.suffix,
        buyer.prefix,
        buyer.suffix,
        expires,
        european,
    ];
    assert(r@ =~= spec_option_contract_note_inputs(
        payback_recipient@,
        requested,
        payback_tag,
        execution_hint,
        underwriter,
        buyer,
        expiration,
        is_european,
    ));
    r
}

/// Builds the inputs of an option contract note whose payback note is
/// addressed to `underwriter`: its payback tag is the tag of notes addressed
/// to the underwriter (see [`option_contract_note_inputs`]).
pub fn option_contract_note_inputs_for(
    payback_recipient: [u64; 4],
    requested: FungibleAssetInfo,
    execution_hint: u64,
    underwriter: AccountIdWords,
    buyer: AccountIdWords,
    expiration: u64,
    is_european: bool,
) -> (r: Vec<u64>)
    requires
        underwriter.is_canonical(),
        spec_account_id_valid(underwriter.prefix, underwriter.suffix),
    ensures
        r@ == spec_option_contract_note_inputs(
            payback_recipient@,
            requested,
            spec_account_tag(underwriter.prefix),
            execution_hint,
            underwriter,
            buyer,
            expiration,
            is_european,
        ),
{
    let payback_tag = account_note_tag(underwriter);
    option_contract_note_inputs(
        payback_recipient,
        requested,
        payback_tag,
        execution_hint,
        underwriter,
        buyer,
        expiration,
        is_european,
    )
}

} // verus!
