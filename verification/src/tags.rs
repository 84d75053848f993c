//! Note tags: the tag of notes addressed to an account, and the tag of swap
//! notes between two assets.
use crate::assets::{spec_account_id_valid, spec_fungible_asset_valid, AccountIdWords, FungibleAssetInfo};
use miden_lib::note::utils::build_swap_tag;
use miden_objects::account::AccountId;
use miden_objects::asset::{Asset, FungibleAsset};
use miden_objects::note::{NoteTag, NoteType};
use miden_objects::Felt;
use vstd::prelude::*;

verus! {

/// The tag of notes addressed to the account with prefix `prefix`: for an
/// account of network storage mode (bits 6 and 7 of the prefix are `0b01`)
/// the 30 high bits of the prefix; otherwise `0b11` in the two high bits,
/// then the 14 high bits of the prefix, then 16 zero bits.
pub open spec fn spec_account_tag(prefix: u64) -> u32 {
    let high = (prefix >> 34u64) as u32;
    if prefix & 0xc0u64 == 0x40u64 {
        high
    } else {
        0xc000_0000u32 | (high & 0xffff_0000u32)
    }
}

/// The tag of a public swap note offering an asset of the faucet with
/// prefix `offered_prefix` for one of the faucet with prefix
/// `requested_prefix`: `0b10` in the two high bits (local, public, use case
/// 0), then the top byte of each prefix.
pub open spec fn spec_swap_tag(offered_prefix: u64, requested_prefix: u64) -> u32 {
    0x8000_0000u32 | ((((offered_prefix >> 56u64) as u32) << 8u32) | ((requested_prefix >> 56u64) as u32))
}

/// `u32::from(NoteTag::from_account_id(account))`: the tag of notes
/// addressed to a valid account (see [`spec_account_tag`]).
#[verifier::external_body]
fn account_tag(account: AccountIdWords) -> (r: u32)
    requires
        spec_account_id_valid(account.prefix, account.suffix),
        account.is_canonical(),
    ensures
        r == spec_account_tag(account.prefix),
{
    let id = AccountId::try_from([Felt::new(account.prefix), Felt::new(account.suffix)]).expect(
        "identifier validated before",
    );
    u32::from(NoteTag::from_account_id(id))
}

/// `u32::from(build_swap_tag(NoteType::Public, &offered, &requested))` for
/// two valid fungible assets (see [`spec_swap_tag`]).
#[verifier::external_body]
fn swap_tag(offered: FungibleAssetInfo, requested: FungibleAssetInfo) -> (r: u32)
    requires
        offered.faucet.is_canonical(),
        spec_fungible_asset_valid(offered.faucet, offered.amount),
        requested.faucet.is_canonical(),
        spec_fungible_asset_valid(requested.faucet, requested.amount),
    ensures
        r == spec_swap_tag(offered.faucet.prefix, requested.faucet.prefix),
{
    let off_id = AccountId::try_from([Felt::new(offered.faucet.prefix), Felt::new(offered.faucet.suffix)]).expect("valid faucet");
    let req_id = AccountId::try_from([Felt::new(requested.faucet.prefix), Felt::new(requested.faucet.suffix)]).expect("valid faucet");
    let off = Asset::from(FungibleAsset::new(off_id, offered.amount).expect("valid asset"));
    let req = Asset::from(FungibleAsset::new(req_id, requested.amount).expect("valid asset"));
    u32::from(build_swap_tag(NoteType::Public, &off, &req).expect("use case 0 is valid"))
}

/// The tag of notes addressed to `account` (see [`spec_account_tag`]): the
/// metadata tag of a P2ID note paying it, and the P2ID tag of its orders.
pub fn account_note_tag(account: AccountIdWords) -> (r: u32)
    requires
        spec_account_id_valid(account.prefix, account.suffix),
        account.is_canonical(),
    ensures
        r == spec_account_tag(account.prefix),
{
    account_tag(account)
}

/// The tag of public swap notes offering `offered` for `requested` (see
/// [`spec_swap_tag`]): the metadata tag of SWAPP and option contract notes.
pub fn swap_note_tag(offered: FungibleAssetInfo, requested: FungibleAssetInfo) -> (r: u32)
    requires
        offered.faucet.is_canonical(),
        spec_fungible_asset_valid(offered.faucet, offered.amount),
        requested.faucet.is_canonical(),
        spec_fungible_asset_valid(requested.faucet, requested.amount),
    ensures
        r == spec_swap_tag(offered.faucet.prefix, requested.faucet.prefix),
{
    swap_tag(offered, requested)
}

} // verus!
