//! Account identifiers, fungible assets and field elements as plain values.
use miden_objects::account::AccountId;
use miden_objects::asset::FungibleAsset;
use miden_objects::Felt;
use vstd::prelude::*;

verus! {

/// The modulus of the base field, `2^64 - 2^32 + 1`.
pub const FIELD_MODULUS: u64 = 0xffff_ffff_0000_0001u64;

/// The largest amount a fungible asset can hold, `2^63 - 1`.
pub const MAX_AMOUNT: u64 = 0x7fff_ffff_ffff_ffffu64;

/// An account identifier as its two field elements (prefix first).
#[derive(Clone, Copy, Debug, PartialEq, Eq, Structural)]
pub struct AccountIdWords {
    pub prefix: u64,
    pub suffix: u64,
}

/// A fungible asset: the issuing faucet and an amount.
#[derive(Clone, Copy, Debug, PartialEq, Eq, Structural)]
pub struct FungibleAssetInfo {
    pub faucet: AccountIdWords,
    pub amount: u64,
}

impl AccountIdWords {
    /// Both words are canonical field elements.
    pub open spec fn is_canonical(self) -> bool {
        self.prefix < FIELD_MODULUS && self.suffix < FIELD_MODULUS
    }
}

impl FungibleAssetInfo {
    /// The faucet words are canonical and the amount is at most `MAX_AMOUNT`.
    pub open spec fn wf(self) -> bool {
        self.faucet.is_canonical() && self.amount <= MAX_AMOUNT
    }
}

/// Whether `[prefix, suffix]`, each taken as a field element, is accepted as
/// an account identifier by `AccountId::try_from([Felt; 2])`: the prefix has
/// version 0 (low nibble zero) and a known storage mode (bits 6 and 7 not
/// both set); the suffix has its top bit and its low byte zero.
pub open spec fn spec_account_id_valid(prefix: u64, suffix: u64) -> bool {
    let p = (prefix % FIELD_MODULUS) as u64;
    let s = (suffix % FIELD_MODULUS) as u64;
    &&& p & 0xfu64 == 0
    &&& p & 0xc0u64 != 0xc0u64
    &&& s < 0x8000_0000_0000_0000u64
    &&& s & 0xffu64 == 0
}

/// Whether a prefix encodes the account type "fungible faucet"
/// (bits 4 and 5 of the prefix are `0b10`).
pub open spec fn spec_is_fungible_faucet_prefix(prefix: u64) -> bool {
    prefix & 0x30u64 == 0x20u64
}

/// Whether an asset of `amount` units issued by `faucet` is a valid fungible asset.
pub open spec fn spec_fungible_asset_valid(faucet: AccountIdWords, amount: u64) -> bool {
    &&& spec_account_id_valid(faucet.prefix, faucet.suffix)
    &&& spec_is_fungible_faucet_prefix(faucet.prefix)
    &&& amount <= MAX_AMOUNT
}

/// The canonical value of `x` as a field element (what
/// `Felt::new(x).as_int()` gives): `x` reduced modulo the field modulus.
pub(crate) fn felt_canonical(x: u64) -> (r: u64)
    ensures
        r == x % FIELD_MODULUS,
{
    x % FIELD_MODULUS
}

/// `AccountId::try_from([Felt::new(prefix), Felt::new(suffix)])`: whether the
/// two words form a valid account identifier (see [`spec_account_id_valid`]).
/// The words of an accepted identifier are the field elements handed in.
#[verifier::external_body]
pub(crate) fn account_id_try_from(prefix: u64, suffix: u64) -> (r: Option<AccountIdWords>)
    ensures
        r is Some <==> spec_account_id_valid(prefix, suffix),
        r matches Some(w) ==> w.prefix == prefix % FIELD_MODULUS && w.suffix == suffix
            % FIELD_MODULUS,
{
    match AccountId::try_from([Felt::new(prefix), Felt::new(suffix)]) {
        Ok(id) => Some(AccountIdWords { prefix: id.prefix().as_u64(), suffix: id.suffix().as_int() }),
        Err(_) => None,
    }
}

/// `FungibleAsset::new(faucet, amount)` for a valid account identifier:
/// accepted exactly when the identifier's type is "fungible faucet" and the
/// amount is at most `2^63 - 1` (what `FungibleAsset::validate` checks).
#[verifier::external_body]
pub(crate) fn fungible_asset_new(faucet: AccountIdWords, amount: u64) -> (r: bool)
    requires
        spec_account_id_valid(faucet.prefix, faucet.suffix),
        faucet.is_canonical(),
    ensures
        r <==> (spec_is_fungible_faucet_prefix(faucet.prefix) && amount <= MAX_AMOUNT),
{
    let id = AccountId::try_from([Felt::new(faucet.prefix), Felt::new(faucet.suffix)]).expect(
        "identifier validated before",
    );
    FungibleAsset::new(id, amount).is_ok()
}

/// Checks that `faucet` and `amount` form a valid fungible asset, as
/// `FungibleAsset::new` after `AccountId::try_from` would.
pub(crate) fn check_fungible_asset(faucet: AccountIdWords, amount: u64) -> (r: bool)
    ensures
        r == (faucet.is_canonical() && spec_fungible_asset_valid(faucet, amount)),
{
    if faucet.prefix >= FIELD_MODULUS || faucet.suffix >= FIELD_MODULUS {
        return false;
    }
    match account_id_try_from(faucet.prefix, faucet.suffix) {
        None => false,
        Some(_) => fungible_asset_new(faucet, amount),
    }
}

} // verus!
