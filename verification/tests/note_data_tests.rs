use miden_clob::assets::{AccountIdWords, FungibleAssetInfo};
use miden_clob::note_codec::{decode_note_data, encode_note_data, swap_order_from_note_parts, NoteDataError, NoteParts};
use miden_clob::swapp_note::{swapp_note_inputs, SwappNoteError};
use miden_lib::note::well_known_note::WellKnownNote;
use miden_objects::account::AccountId;
use miden_objects::asset::{Asset, FungibleAsset};
use miden_objects::note::{
    Note, NoteAssets, NoteExecutionHint, NoteInputs, NoteMetadata, NoteRecipient, NoteTag, NoteType,
};
use miden_objects::utils::serde::{Deserializable, Serializable};
use miden_objects::Word;
use miden_objects::Felt;

const ALICE: &str = "0xa6511b8a76c05b1000009fdbdccce9";
const FAUCET_A: &str = "0xe125e96a9af535200000a5dc5d4500";
const FAUCET_B: &str = "0x34d1b6993361072000005737e7ae4b";

fn words(id: AccountId) -> AccountIdWords {
    AccountIdWords { prefix: id.prefix().as_u64(), suffix: id.suffix().as_int() }
}

fn note_text(creator: AccountId, assets: Vec<Asset>, inputs: Vec<u64>, serial: [u64; 4]) -> String {
    let inputs = NoteInputs::new(inputs.into_iter().map(Felt::new).collect()).unwrap();
    let metadata =
        NoteMetadata::new(creator, NoteType::Public, NoteTag::from_account_id(creator), NoteExecutionHint::always(), Felt::new(0))
            .unwrap();
    let serial = serial.map(Felt::new);
    let recipient = NoteRecipient::new(serial, WellKnownNote::P2ID.script(), inputs);
    let note = Note::new(NoteAssets::new(assets).unwrap(), metadata, recipient);
    encode_note_data(&note.to_bytes())
}

/// Reads the stored text back as the parts of a note, as the order book does.
fn swap_order_from_note_data(text: &str) -> Result<miden_clob::swapp_note::SwapOrder, NoteDataError> {
    let bytes = decode_note_data(text)?;
    let note = Note::read_from_bytes(&bytes).map_err(|_| NoteDataError::InvalidNote)?;
    let parts = NoteParts {
        asset_words: note.assets().iter().map(|a| Word::from(a).map(|f| f.as_int())).collect(),
        inputs: note.inputs().values().iter().map(|f| f.as_int()).collect(),
        serial_num: note.serial_num().map(|f| f.as_int()),
    };
    swap_order_from_note_parts(&parts)
}

#[test]
fn order_read_from_stored_note_text() {
    let alice = AccountId::from_hex(ALICE).unwrap();
    let faucet_a = AccountId::from_hex(FAUCET_A).unwrap();
    let faucet_b = AccountId::from_hex(FAUCET_B).unwrap();
    let requested = FungibleAssetInfo { faucet: words(faucet_b), amount: 90 };
    let inputs = swapp_note_inputs(requested, 7, 9, 2, words(alice));
    let offered: Asset = FungibleAsset::new(faucet_a, 150).unwrap().into();
    let text = note_text(alice, vec![offered], inputs.clone(), [1, 2, 3, 4]);
    let order = swap_order_from_note_data(&text).unwrap();
    assert_eq!(order.offered, FungibleAssetInfo { faucet: words(faucet_a), amount: 150 });
    assert_eq!(order.requested, requested);
    assert_eq!(order.creator, words(alice));
    assert_eq!(order.swap_count, 2);
    assert_eq!(order.serial_num, [1, 2, 3, 4]);

    // A note without assets, and one whose inputs are not a SWAPP order.
    let empty = note_text(alice, vec![], inputs.clone(), [0; 4]);
    assert_eq!(swap_order_from_note_data(&empty).unwrap_err(), NoteDataError::MissingAsset);
    let short = note_text(alice, vec![offered], vec![1, 2], [0; 4]);
    assert_eq!(
        swap_order_from_note_data(&short).unwrap_err(),
        NoteDataError::NotSwapp(SwappNoteError::MissingRequestedAsset)
    );
}

#[test]
fn stored_note_text_errors() {
    assert_eq!(swap_order_from_note_data("not base64!").unwrap_err(), NoteDataError::InvalidBase64);
    assert_eq!(swap_order_from_note_data("aGVsbG8=").unwrap_err(), NoteDataError::InvalidNote);
}
