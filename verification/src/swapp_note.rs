//! The SWAPP note format: how an order is laid out in a note's inputs, and
//! the values derived from an order's serial number.
use crate::assets::{
    account_id_try_from, check_fungible_asset, felt_canonical, spec_account_id_valid,
    spec_fungible_asset_valid, AccountIdWords, FungibleAssetInfo, FIELD_MODULUS,
};
use crate::tags::{account_note_tag, spec_account_tag, spec_swap_tag, swap_note_tag};
use miden_objects::{Digest, Felt, Hasher};
use vstd::prelude::*;

verus! {

/// Number of inputs of a SWAPP note.
pub const SWAPP_NOTE_INPUTS_LEN: usize = 14;

/// Number of inputs of a cancellable SWAPP note.
pub const SWAPP_CANCELLABLE_NOTE_INPUTS_LEN: usize = 20;

/// Index of the swap count among the inputs of a SWAPP note.
pub const SWAP_COUNT_INPUT_INDEX: usize = 8;

/// Why the inputs of a note do not describe a SWAPP order.
#[derive(Clone, Copy, Debug, PartialEq, Eq, Structural)]
pub enum SwappNoteError {
    /// Fewer than four inputs: there is no requested-asset word.
    MissingRequestedAsset,
    /// The requested asset's faucet words are not an account identifier.
    InvalidRequestedFaucet,
    /// The requested asset is not a valid fungible asset.
    InvalidRequestedAsset,
    /// Fewer than fourteen inputs: there is no creator.
    MissingCreator,
    /// The creator words are not an account identifier.
    InvalidCreator,
}

/// A SWAPP order: what its creator offers, what it requests in exchange,
/// and the note data that the matcher needs to continue it.
#[derive(Clone, Copy, Debug)]
pub struct SwapOrder {
    pub offered: FungibleAssetInfo,
    pub requested: FungibleAssetInfo,
    pub creator: AccountIdWords,
    pub serial_num: [u64; 4],
    pub swap_count: u64,
}

/// Every value of the sequence is a canonical field element.
pub open spec fn spec_all_canonical(s: Seq<u64>) -> bool {
    forall|i: int| 0 <= i < s.len() ==> #[trigger] s[i] < FIELD_MODULUS
}

impl SwapOrder {
    /// The field-element values are canonical and the amounts are at most
    /// `MAX_AMOUNT`, as for any order read from a note.
    pub open spec fn wf(self) -> bool {
        &&& self.offered.wf()
        &&& self.requested.wf()
        &&& self.creator.is_canonical()
        &&& spec_all_canonical(self.serial_num@)
        &&& self.swap_count < FIELD_MODULUS
    }

    /// Both assets are valid fungible assets and the creator is a valid
    /// account identifier.
    pub open spec fn ids_valid(self) -> bool {
        &&& spec_fungible_asset_valid(self.offered.faucet, self.offered.amount)
        &&& spec_fungible_asset_valid(self.requested.faucet, self.requested.amount)
        &&& spec_account_id_valid(self.creator.prefix, self.creator.suffix)
    }
}

/// The word of a fungible asset: `[amount, 0, faucet suffix, faucet prefix]`.
pub open spec fn spec_asset_word(asset: FungibleAssetInfo) -> Seq<u64> {
    seq![asset.amount, 0u64, asset.faucet.suffix, asset.faucet.prefix]
}

/// The inputs of a SWAPP note: the requested asset word, the SWAPP and P2ID
/// tags, two zeros, the swap count, three zeros and the creator's prefix and
/// suffix.
pub open spec fn spec_swapp_note_inputs(
    requested: FungibleAssetInfo,
    swapp_tag: u32,
    p2id_tag: u32,
    swap_count: u64,
    creator: AccountIdWords,
) -> Seq<u64> {
    spec_asset_word(requested) + seq![
        swapp_tag as u64,
        p2id_tag as u64,
        0u64,
        0u64,
        (swap_count % FIELD_MODULUS) as u64,
        0u64,
        0u64,
        0u64,
        creator.prefix,
        creator.suffix,
    ]
}

/// The inputs of a SWAPP note are fourteen values, by position: the
/// requested amount, 0, the requested faucet's suffix and prefix, the SWAPP
/// tag, the P2ID tag, 0, 0, the swap count (as a field element), 0, 0, 0,
/// and the creator's prefix and suffix.
pub proof fn lemma_swapp_note_inputs_positions(
    requested: FungibleAssetInfo,
    swapp_tag: u32,
    p2id_tag: u32,
    swap_count: u64,
    creator: AccountIdWords,
)
    ensures
        ({
            let v = spec_swapp_note_inputs(requested, swapp_tag, p2id_tag, swap_count, creator);
            &&& v.len() == 14
            &&& v[0] == requested.amount
            &&& v[1] == 0
            &&& v[2] == requested.faucet.suffix
            &&& v[3] == requested.faucet.prefix
            &&& v[4] == swapp_tag as u64
            &&& v[5] == p2id_tag as u64
            &&& v[6] == 0 && v[7] == 0
            &&& v[8] == swap_count % FIELD_MODULUS
            &&& v[9] == 0 && v[10] == 0 && v[11] == 0
            &&& v[12] == creator.prefix
            &&& v[13] == creator.suffix
        }),
{
}

/// The inputs of a cancellable SWAPP note are twenty values: the fourteen
/// inputs of the plain SWAPP note, 0 at positions 14 and 15, and the four
/// words of the secret hash at positions 16 to 19.
pub proof fn lemma_swapp_cancellable_note_inputs_positions(
    requested: FungibleAssetInfo,
    swapp_tag: u32,
    p2id_tag: u32,
    swap_count: u64,
    creator: AccountIdWords,
    secret_hash: Seq<u64>,
)
    requires
        secret_hash.len() == 4,
    ensures
        ({
            let v = spec_swapp_cancellable_note_inputs(
                requested,
                swapp_tag,
                p2id_tag,
                swap_count,
                creator,
                secret_hash,
            );
            &&& v.len() == 20
            &&& v.subrange(0, 14) == spec_swapp_note_inputs(
                requested,
                swapp_tag,
                p2id_tag,
                swap_count,
                creator,
            )
            &&& v[14] == 0 && v[15] == 0
            &&& v[16] == secret_hash[0] && v[17] == secret_hash[1]
            &&& v[18] == secret_hash[2] && v[19] == secret_hash[3]
            &&& v.subrange(16, 20) == secret_hash
        }),
{
    let plain = spec_swapp_note_inputs(requested, swapp_tag, p2id_tag, swap_count, creator);
    let v = spec_swapp_cancellable_note_inputs(
        requested,
        swapp_tag,
        p2id_tag,
        swap_count,
        creator,
        secret_hash,
    );
    lemma_swapp_note_inputs_positions(requested, swapp_tag, p2id_tag, swap_count, creator);
    assert(v.subrange(0, 14) =~= plain);
    assert(v.subrange(16, 20) =~= secret_hash);
}

/// Builds the inputs of a SWAPP note (see [`spec_swapp_note_inputs`]).
pub fn swapp_note_inputs(
    requested: FungibleAssetInfo,
    swapp_tag: u32,
    p2id_tag: u32,
    swap_count: u64,
    creator: AccountIdWords,
) -> (r: Vec<u64>)
    ensures
        r@ == spec_swapp_note_inputs(requested, swapp_tag, p2id_tag, swap_count, creator),
        r@.len() == 14,
        r@[0] == requested.amount && r@[1] == 0,
        r@[2] == requested.faucet.suffix && r@[3] == requested.faucet.prefix,
        r@[4] == swapp_tag as u64 && r@[5] == p2id_tag as u64,
        r@[6] == 0 && r@[7] == 0,
        r@[8] == swap_count % FIELD_MODULUS,
        r@[9] == 0 && r@[10] == 0 && r@[11] == 0,
        r@[12] == creator.prefix && r@[13] == creator.suffix,
{
    proof {
        lemma_swapp_note_inputs_positions(requested, swapp_tag, p2id_tag, swap_count, creator);
    }
    let count = felt_canonical(swap_count);
    let r = vec![
        requested.amount,
        0u64,
        requested.faucet.suffix,
        requested.faucet.prefix,
        swapp_tag as u64,
        p2id_tag as u64,
        0u64,
        0u64,
        count,
        0u64,
        0u64,
        0u64,
        creator.prefix,
        creator.suffix,
    ];
    assert(r@ =~= spec_swapp_note_inputs(requested, swapp_tag, p2id_tag, swap_count, creator));
    r
}

/// The requirements on an order's assets and creator for building its note:
/// both assets are valid fungible assets and the creator a valid account,
/// all with canonical words.
pub open spec fn spec_order_valid(
    offered: FungibleAssetInfo,
    requested: FungibleAssetInfo,
    creator: AccountIdWords,
) -> bool {
    &&& offered.faucet.is_canonical()
    &&& spec_fungible_asset_valid(offered.faucet, offered.amount)
    &&& requested.faucet.is_canonical()
    &&& spec_fungible_asset_valid(requested.faucet, requested.amount)
    &&& creator.is_canonical()
    &&& spec_account_id_valid(creator.prefix, creator.suffix)
}

/// Builds the inputs of the SWAPP note of `creator` offering `offered` for
/// `requested`, with the swap tag of the two assets and the tag of notes
/// addressed to the creator.
pub fn swapp_note_inputs_for(
    offered: FungibleAssetInfo,
    requested: FungibleAssetInfo,
    swap_count: u64,
    creator: AccountIdWords,
) -> (r: Vec<u64>)
    requires
        spec_order_valid(offered, requested, creator),
    ensures
        r@ == spec_swapp_note_inputs(
            requested,
            spec_swap_tag(offered.faucet.prefix, requested.faucet.prefix),
            spec_account_tag(creator.prefix),
            swap_count,
            creator,
        ),
{
    let swapp_tag = swap_note_tag(offered, requested);
    let p2id_tag = account_note_tag(creator);
    swapp_note_inputs(requested, swapp_tag, p2id_tag, swap_count, creator)
}

/// The inputs of a cancellable SWAPP note: those of a SWAPP note, two zeros,
/// then the four words of the secret hash.
pub open spec fn spec_swapp_cancellable_note_inputs(
    requested: FungibleAssetInfo,
    swapp_tag: u32,
    p2id_tag: u32,
    swap_count: u64,
    creator: AccountIdWords,
    secret_hash: Seq<u64>,
) -> Seq<u64> {
    spec_swapp_note_inputs(requested, swapp_tag, p2id_tag, swap_count, creator) + seq![
        0u64,
        0u64,
    ] + secret_hash
}

/// Builds the inputs of a cancellable SWAPP note
/// (see [`spec_swapp_cancellable_note_inputs`]).
pub fn swapp_cancellable_note_inputs(
    requested: FungibleAssetInfo,
    swapp_tag: u32,
    p2id_tag: u32,
    swap_count: u64,
    creator: AccountIdWords,
    secret_hash: [u64; 4],
) -> (r: Vec<u64>)
    ensures
        r@ == spec_swapp_cancellable_note_inputs(
            requested,
            swapp_tag,
            p2id_tag,
            swap_count,
            creator,
            secret_hash@,
        ),
        r@.len() == 20,
        r@.subrange(0, 14) == spec_swapp_note_inputs(requested, swapp_tag, p2id_tag, swap_count, creator),
        r@[14] == 0 && r@[15] == 0,
        r@.subrange(16, 20) == secret_hash@,
{
    proof {
        lemma_swapp_cancellable_note_inputs_positions(
            requested,
            swapp_tag,
            p2id_tag,
            swap_count,
            creator,
            secret_hash@,
        );
    }
    let mut r = swapp_note_inputs(requested, swapp_tag, p2id_tag, swap_count, creator);
    r.push(0u64);
    r.push(0u64);
    r.push(secret_hash[0]);
    r.push(secret_hash[1]);
    r.push(secret_hash[2]);
    r.push(secret_hash[3]);
    assert(r@ =~= spec_swapp_cancellable_note_inputs(
        requested,
        swapp_tag,
        p2id_tag,
        swap_count,
        creator,
        secret_hash@,
    ));
    r
}

/// Builds the inputs of the cancellable SWAPP note of `creator` offering
/// `offered` for `requested`, with the tags of [`swapp_note_inputs_for`].
pub fn swapp_cancellable_note_inputs_for(
    offered: FungibleAssetInfo,
    requested: FungibleAssetInfo,
    swap_count: u64,
    creator: AccountIdWords,
    secret_hash: [u64; 4],
) -> (r: Vec<u64>)
    requires
        spec_order_valid(offered, requested, creator),
    ensures
        r@ == spec_swapp_cancellable_note_inputs(
            requested,
            spec_swap_tag(offered.faucet.prefix, requested.faucet.prefix),
            spec_account_tag(creator.prefix),
            swap_count,
            creator,
            secret_hash@,
        ),
{
    let swapp_tag = swap_note_tag(offered, requested);
    let p2id_tag = account_note_tag(creator);
    swapp_cancellable_note_inputs(requested, swapp_tag, p2id_tag, swap_count, creator, secret_hash)
}

/// The requested asset that the first four inputs of a note describe.
pub open spec fn spec_decompose_swapp_note(offered: FungibleAssetInfo, inputs: Seq<u64>) -> Result<
    (FungibleAssetInfo, FungibleAssetInfo),
    SwappNoteError,
> {
    if inputs.len() < 4 {
        Err(SwappNoteError::MissingRequestedAsset)
    } else if !spec_account_id_valid(inputs[3], inputs[2]) {
        Err(SwappNoteError::InvalidRequestedFaucet)
    } else {
        let faucet = AccountIdWords { prefix: inputs[3], suffix: inputs[2] };
        if !spec_fungible_asset_valid(faucet, inputs[0]) {
            Err(SwappNoteError::InvalidRequestedAsset)
        } else {
            Ok((offered, FungibleAssetInfo { faucet, amount: inputs[0] }))
        }
    }
}

/// The first four inputs of a note describe a requested asset: a valid
/// faucet identifier (inputs 3 and 2) and a valid fungible amount (input 0).
pub open spec fn spec_requested_asset_valid(inputs: Seq<u64>) -> bool {
    &&& inputs.len() >= 4
    &&& spec_account_id_valid(inputs[3], inputs[2])
    &&& spec_fungible_asset_valid(AccountIdWords { prefix: inputs[3], suffix: inputs[2] }, inputs[0])
}

/// Returns the offered and the requested asset of a SWAPP note, given its
/// (first) asset and its inputs, which must describe a requested asset.
pub fn decompose_swapp_note(offered: FungibleAssetInfo, inputs: &Vec<u64>) -> (r: (
    FungibleAssetInfo,
    FungibleAssetInfo,
))
    requires
        spec_all_canonical(inputs@),
        spec_requested_asset_valid(inputs@),
    ensures
        spec_decompose_swapp_note(offered, inputs@) == Ok::<
            (FungibleAssetInfo, FungibleAssetInfo),
            SwappNoteError,
        >(r),
        r == (offered, FungibleAssetInfo {
            faucet: AccountIdWords { prefix: inputs@[3], suffix: inputs@[2] },
            amount: inputs@[0],
        }),
{
    (offered, FungibleAssetInfo { faucet: AccountIdWords { prefix: inputs[3], suffix: inputs[2] }, amount: inputs[0] })
}

/// The creator that inputs 12 and 13 of a note describe.
pub open spec fn spec_creator_of(inputs: Seq<u64>) -> Result<AccountIdWords, SwappNoteError> {
    if inputs.len() < 14 {
        Err(SwappNoteError::MissingCreator)
    } else if !spec_account_id_valid(inputs[12], inputs[13]) {
        Err(SwappNoteError::InvalidCreator)
    } else {
        Ok(AccountIdWords { prefix: inputs[12], suffix: inputs[13] })
    }
}

/// Returns the creator of a SWAPP note: inputs 12 (prefix) and 13 (suffix),
/// which must be a valid account identifier.
pub fn creator_of(inputs: &Vec<u64>) -> (r: AccountIdWords)
    requires
        inputs@.len() >= 14,
        spec_account_id_valid(inputs@[12], inputs@[13]),
    ensures
        spec_creator_of(inputs@) == Ok::<AccountIdWords, SwappNoteError>(r),
        r == (AccountIdWords { prefix: inputs@[12], suffix: inputs@[13] }),
{
    AccountIdWords { prefix: inputs[12], suffix: inputs[13] }
}

/// What a note with first asset `offered` and inputs `inputs` says of an
/// order: its offered and requested assets, its creator and its swap count.
pub open spec fn spec_swap_order_parts(offered: FungibleAssetInfo, inputs: Seq<u64>) -> Result<
    (FungibleAssetInfo, FungibleAssetInfo, AccountIdWords, u64),
    SwappNoteError,
> {
    match spec_decompose_swapp_note(offered, inputs) {
        Err(e) => Err(e),
        Ok(assets) => match spec_creator_of(inputs) {
            Err(e) => Err(e),
            Ok(creator) => Ok((assets.0, assets.1, creator, inputs[SWAP_COUNT_INPUT_INDEX as int])),
        },
    }
}

/// Reads the order that a SWAPP note describes.
pub fn swap_order_from_note(
    offered: FungibleAssetInfo,
    inputs: &Vec<u64>,
    serial_num: [u64; 4],
) -> (r: Result<SwapOrder, SwappNoteError>)
    requires
        spec_all_canonical(inputs@),
        spec_all_canonical(serial_num@),
        offered.wf(),
    ensures
        r matches Ok(o) ==> spec_swap_order_parts(offered, inputs@) == Ok::<
            (FungibleAssetInfo, FungibleAssetInfo, AccountIdWords, u64),
            SwappNoteError,
        >((o.offered, o.requested, o.creator, o.swap_count)) && o.serial_num@ == serial_num@
            && o.wf(),
        r matches Err(e) ==> spec_swap_order_parts(offered, inputs@) == Err::<
            (FungibleAssetInfo, FungibleAssetInfo, AccountIdWords, u64),
            SwappNoteError,
        >(e),
{
    if inputs.len() < 4 {
        return Err(SwappNoteError::MissingRequestedAsset);
    }
    assert(inputs@[2] < FIELD_MODULUS && inputs@[3] < FIELD_MODULUS);
    if account_id_try_from(inputs[3], inputs[2]).is_none() {
        return Err(SwappNoteError::InvalidRequestedFaucet);
    }
    if !check_fungible_asset(AccountIdWords { prefix: inputs[3], suffix: inputs[2] }, inputs[0]) {
        return Err(SwappNoteError::InvalidRequestedAsset);
    }
    let assets = decompose_swapp_note(offered, inputs);
    if inputs.len() < 14 {
        return Err(SwappNoteError::MissingCreator);
    }
    assert(inputs@[12] < FIELD_MODULUS && inputs@[13] < FIELD_MODULUS);
    if account_id_try_from(inputs[12], inputs[13]).is_none() {
        return Err(SwappNoteError::InvalidCreator);
    }
    let creator = creator_of(inputs);
    assert(inputs@[SWAP_COUNT_INPUT_INDEX as int] < FIELD_MODULUS);
    Ok(
        SwapOrder {
            offered: assets.0,
            requested: assets.1,
            creator,
            serial_num,
            swap_count: inputs[SWAP_COUNT_INPUT_INDEX],
        },
    )
}

/// Reading back the inputs of a SWAPP note gives the order they were built
/// from: its requested asset, its creator and its swap count.
pub proof fn lemma_swapp_note_inputs_roundtrip(
    offered: FungibleAssetInfo,
    requested: FungibleAssetInfo,
    swapp_tag: u32,
    p2id_tag: u32,
    swap_count: u64,
    creator: AccountIdWords,
)
    requires
        spec_fungible_asset_valid(requested.faucet, requested.amount),
        spec_account_id_valid(creator.prefix, creator.suffix),
        swap_count < FIELD_MODULUS,
    ensures
        spec_swap_order_parts(
            offered,
            spec_swapp_note_inputs(requested, swapp_tag, p2id_tag, swap_count, creator),
        ) == Ok::<(FungibleAssetInfo, FungibleAssetInfo, AccountIdWords, u64), SwappNoteError>(
            (offered, requested, creator, swap_count),
        ),
{
    let inputs = spec_swapp_note_inputs(requested, swapp_tag, p2id_tag, swap_count, creator);
    assert(inputs[0] == requested.amount);
    assert(inputs[2] == requested.faucet.suffix);
    assert(inputs[3] == requested.faucet.prefix);
    assert(inputs[8] == swap_count);
    assert(inputs[12] == creator.prefix);
    assert(inputs[13] == creator.suffix);
}

/// The RPO256 hash of two words (the result of `Rpo256::merge`), each
/// element taken as a field element.
pub uninterp spec fn spec_rpo256_merge(left: Seq<u64>, right: Seq<u64>) -> Seq<u64>;

/// `Rpo256::merge(&[left, right])` on two words of field elements
/// (`Felt::new` of each value); the result is the canonical values of the
/// hash's four elements.
#[verifier::external_body]
fn rpo256_merge(left: [u64; 4], right: [u64; 4]) -> (r: [u64; 4])
    ensures
        r@ == spec_rpo256_merge(left@, right@),
{
    let l: Digest = [Felt::new(left[0]), Felt::new(left[1]), Felt::new(left[2]), Felt::new(left[3])].into();
    let rr: Digest = [Felt::new(right[0]), Felt::new(right[1]), Felt::new(right[2]), Felt::new(right[3])].into();
    let d: [Felt; 4] = Hasher::merge(&[l, rr]).into();
    [d[0].as_int(), d[1].as_int(), d[2].as_int(), d[3].as_int()]
}

/// The serial number of the P2ID note that the fill number `swap_count` of a
/// SWAPP note with serial number `swap_serial_num` pays out:
/// `hash(swap_serial_num, [swap_count, 0, 0, 0])`.
pub open spec fn spec_p2id_serial_num(swap_serial_num: Seq<u64>, swap_count: u64) -> Seq<u64> {
    spec_rpo256_merge(swap_serial_num, seq![swap_count, 0u64, 0u64, 0u64])
}

/// The serial number of a fill's P2ID note is the RPO256 merge of two
/// words in this order: the SWAPP note's serial number on the left, and
/// `[swap_count, 0, 0, 0]` on the right.
pub proof fn lemma_p2id_serial_num_is_merge(swap_serial_num: Seq<u64>, swap_count: u64)
    ensures
        spec_p2id_serial_num(swap_serial_num, swap_count) == spec_rpo256_merge(
            swap_serial_num,
            seq![swap_count, 0u64, 0u64, 0u64],
        ),
{
}

/// Computes the serial number of the P2ID note of a SWAPP fill
/// (see [`spec_p2id_serial_num`]).
pub fn get_p2id_serial_num(swap_serial_num: [u64; 4], swap_count: u64) -> (r: [u64; 4])
    ensures
        r@ == spec_p2id_serial_num(swap_serial_num@, swap_count),
        r@ == spec_rpo256_merge(swap_serial_num@, seq![swap_count, 0u64, 0u64, 0u64]),
{
    proof {
        lemma_p2id_serial_num_is_merge(swap_serial_num@, swap_count);
    }
    let count_word = [swap_count, 0u64, 0u64, 0u64];
    assert(count_word@ =~= seq![swap_count, 0u64, 0u64, 0u64]);
    rpo256_merge(swap_serial_num, count_word)
}

/// The serial number of the order that continues a partially filled one:
/// the last element incremented in the field.
pub open spec fn spec_next_swap_serial_num(serial_num: Seq<u64>) -> Seq<u64> {
    serial_num.update(3, ((serial_num[3] + 1) % (FIELD_MODULUS as int)) as u64)
}

/// Computes the serial number of the order that continues a partially
/// filled one (see [`spec_next_swap_serial_num`]).
pub fn next_swap_serial_num(serial_num: [u64; 4]) -> (r: [u64; 4])
    requires
        serial_num[3] < u64::MAX,
    ensures
        r@ == spec_next_swap_serial_num(serial_num@),
        r[0] == serial_num[0] && r[1] == serial_num[1] && r[2] == serial_num[2],
        r[3] == (serial_num[3] + 1) % (FIELD_MODULUS as int),
{
    let last = felt_canonical(serial_num[3] + 1);
    let r = [serial_num[0], serial_num[1], serial_num[2], last];
    assert(r@ =~= spec_next_swap_serial_num(serial_num@));
    r
}

} // verus!
