//! The text form of serialized notes (standard base64 of the note's bytes),
//! and the file path of the order store's database.
use crate::assets::{check_fungible_asset, spec_fungible_asset_valid, AccountIdWords, FungibleAssetInfo};
use crate::swapp_note::{
    spec_all_canonical, spec_swap_order_parts, swap_order_from_note, SwapOrder, SwappNoteError,
};
use base64::engine::general_purpose;
use base64::{DecodeError, Engine};
use vstd::prelude::*;
use vstd::string::StrSliceExecFns;

verus! {

/// Why the text form of a note could not be read back.
#[derive(Clone, Copy, Debug, PartialEq, Eq, Structural)]
pub enum NoteDataError {
    /// The text is not standard base64.
    InvalidBase64,
    /// The bytes are not a serialized note (found when they are read).
    InvalidNote,
    /// The note holds no asset.
    MissingAsset,
    /// The note's first asset is not a fungible asset.
    NonFungibleAsset,
    /// The note's inputs do not describe a SWAPP order.
    NotSwapp(SwappNoteError),
}

#[verifier::external_type_specification]
#[verifier::external_body]
pub struct ExDecodeError(DecodeError);

/// The standard (padded) base64 encoding of `bytes`.
pub uninterp spec fn spec_base64_encode(bytes: Seq<u8>) -> Seq<char>;

/// The bytes whose standard base64 encoding is `text`, if it is one.
pub uninterp spec fn spec_base64_decode(text: Seq<char>) -> Option<Seq<u8>>;

/// `general_purpose::STANDARD.encode(bytes)`: the standard base64 text of the
/// bytes, which decodes back to the same bytes.
#[verifier::external_body]
fn base64_encode(bytes: &[u8]) -> (r: String)
    requires
        bytes@.len() <= usize::MAX / 2,
    ensures
        r@ == spec_base64_encode(bytes@),
        spec_base64_decode(r@) == Some(bytes@),
{
    general_purpose::STANDARD.encode(bytes)
}

/// `general_purpose::STANDARD.decode(text)`: the bytes that the standard
/// base64 text encodes, or the decoding error.
#[verifier::external_body]
fn base64_decode(text: &str) -> (r: Result<Vec<u8>, DecodeError>)
    ensures
        r is Ok <==> spec_base64_decode(text@) is Some,
        r matches Ok(b) ==> spec_base64_decode(text@) == Some(b@),
{
    general_purpose::STANDARD.decode(text)
}

/// The text form of a serialized note: the standard base64 encoding of its
/// bytes, from which [`decode_note_data`] reads back the same bytes.
pub fn encode_note_data(note_bytes: &Vec<u8>) -> (r: String)
    requires
        note_bytes@.len() <= usize::MAX / 2,
    ensures
        r@ == spec_base64_encode(note_bytes@),
        spec_base64_decode(r@) == Some(note_bytes@),
{
    base64_encode(note_bytes.as_slice())
}

/// Reads back the bytes of a serialized note from its text form.
pub fn decode_note_data(encoded: &str) -> (r: Result<Vec<u8>, NoteDataError>)
    ensures
        r is Ok <==> spec_base64_decode(encoded@) is Some,
        r matches Ok(b) ==> spec_base64_decode(encoded@) == Some(b@),
        r matches Err(e) ==> e == NoteDataError::InvalidBase64,
{
    match base64_decode(encoded) {
        Ok(bytes) => Ok(bytes),
        Err(_) => Err(NoteDataError::InvalidBase64),
    }
}

/// What the order logic reads of a note: the words of its assets, its
/// inputs and its serial number, each field element as its canonical value.
#[derive(Clone, Debug)]
pub struct NoteParts {
    pub asset_words: Vec<[u64; 4]>,
    pub inputs: Vec<u64>,
    pub serial_num: [u64; 4],
}

/// The offered asset of a note whose asset words are `words`: its first
/// asset, which must be a valid fungible asset (its word is
/// `[amount, 0, faucet suffix, faucet prefix]`).
pub open spec fn spec_offered_asset(words: Seq<[u64; 4]>) -> Result<FungibleAssetInfo, NoteDataError> {
    if words.len() == 0 {
        Err(NoteDataError::MissingAsset)
    } else {
        let w = words[0]@;
        let asset = FungibleAssetInfo { faucet: AccountIdWords { prefix: w[3], suffix: w[2] }, amount: w[0] };
        if asset.faucet.is_canonical() && spec_fungible_asset_valid(asset.faucet, asset.amount) {
            Ok(asset)
        } else {
            Err(NoteDataError::NonFungibleAsset)
        }
    }
}

/// The offer of a note is read from the word of its first asset:
/// the amount at position 0, the faucet's suffix at position 2 and its
/// prefix at position 3; a valid fungible asset is read back as itself.
pub proof fn lemma_offered_asset_from_first_word(words: Seq<[u64; 4]>, asset: FungibleAssetInfo)
    requires
        words.len() > 0,
        words[0]@[0] == asset.amount,
        words[0]@[2] == asset.faucet.suffix,
        words[0]@[3] == asset.faucet.prefix,
        asset.faucet.is_canonical(),
        spec_fungible_asset_valid(asset.faucet, asset.amount),
    ensures
        spec_offered_asset(words) == Ok::<FungibleAssetInfo, NoteDataError>(asset),
{
}

/// The order that a note with asset words `words` and inputs `inputs`
/// describes, as its parts (see [`spec_swap_order_parts`]): its first asset
/// is the offer and its inputs give the rest.
pub open spec fn spec_order_from_note_parts(words: Seq<[u64; 4]>, inputs: Seq<u64>) -> Result<
    (FungibleAssetInfo, FungibleAssetInfo, AccountIdWords, u64),
    NoteDataError,
> {
    match spec_offered_asset(words) {
        Err(e) => Err(e),
        Ok(offered) => match spec_swap_order_parts(offered, inputs) {
            Err(e) => Err(NoteDataError::NotSwapp(e)),
            Ok(t) => Ok(t),
        },
    }
}

/// Reads the SWAPP order that a note describes, given the parts of the note
/// read from its bytes: its first asset is the offer, its inputs and serial
/// number give the rest of the order.
pub fn swap_order_from_note_parts(parts: &NoteParts) -> (r: Result<SwapOrder, NoteDataError>)
    requires
        spec_all_canonical(parts.inputs@),
        spec_all_canonical(parts.serial_num@),
    ensures
        r matches Ok(o) ==> o.wf() && o.serial_num@ == parts.serial_num@
            && spec_order_from_note_parts(parts.asset_words@, parts.inputs@) == Ok::<
            (FungibleAssetInfo, FungibleAssetInfo, AccountIdWords, u64),
            NoteDataError,
        >((o.offered, o.requested, o.creator, o.swap_count)),
        r matches Err(e) ==> spec_order_from_note_parts(parts.asset_words@, parts.inputs@) == Err::<
            (FungibleAssetInfo, FungibleAssetInfo, AccountIdWords, u64),
            NoteDataError,
        >(e),
{
    if parts.asset_words.len() == 0 {
        return Err(NoteDataError::MissingAsset);
    }
    let w = parts.asset_words[0];
    let offered = FungibleAssetInfo { faucet: AccountIdWords { prefix: w[3], suffix: w[2] }, amount: w[0] };
    if !check_fungible_asset(offered.faucet, offered.amount) {
        return Err(NoteDataError::NonFungibleAsset);
    }
    match swap_order_from_note(offered, &parts.inputs, parts.serial_num) {
        Ok(o) => Ok(o),
        Err(e) => Err(NoteDataError::NotSwapp(e)),
    }
}

/// The `sqlite:` prefix of a database URL.
pub open spec fn spec_sqlite_scheme() -> Seq<char> {
    "sqlite:"@
}

/// The URL without a leading `sqlite:`.
pub open spec fn spec_strip_scheme(url: Seq<char>) -> Seq<char> {
    if url.len() >= spec_sqlite_scheme().len() && url.take(spec_sqlite_scheme().len() as int)
        == spec_sqlite_scheme() {
        url.skip(spec_sqlite_scheme().len() as int)
    } else {
        url
    }
}

/// `path` is `s` up to (not including) its first `?`.
pub open spec fn spec_before_query(s: Seq<char>, path: Seq<char>) -> bool {
    &&& path.len() <= s.len()
    &&& path == s.take(path.len() as int)
    &&& forall|i: int| 0 <= i < path.len() ==> path[i] != '?'
    &&& (path.len() == s.len() || s[path.len() as int] == '?')
}

/// The file path of the database named by `database_url`: the URL without a
/// leading `sqlite:`, up to its first `?`.
pub fn database_file_path(database_url: &str) -> (r: String)
    ensures
        spec_before_query(spec_strip_scheme(database_url@), r@),
{
    let scheme = "sqlite:";
    proof {
        reveal_strlit("sqlite:");
    }
    let len = database_url.unicode_len();
    let rest = if len >= 7 && database_url.substring_char(0, 7).to_owned() == scheme.to_owned() {
        database_url.substring_char(7, len)
    } else {
        database_url
    };
    assert(rest@ == spec_strip_scheme(database_url@));
    let rest_len = rest.unicode_len();
    let mut i: usize = 0;
    while i < rest_len
        invariant
            rest_len == rest@.len(),
            i <= rest_len,
            forall|k: int| 0 <= k < i ==> rest@[k] != '?',
        ensures
            i == rest_len || rest@[i as int] == '?',
        decreases rest_len - i,
    {
        if rest.get_char(i) == '?' {
            break;
        }
        i = i + 1;
    }
    let path = rest.substring_char(0, i).to_owned();
    assert(path@ =~= rest@.take(i as int));
    path
}

} // verus!
