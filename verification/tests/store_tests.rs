use miden_clob::api::{OrderBookQuery, SubmitOrderRequest, SubmitOrderResponse, UserOrdersQuery};
use miden_clob::assets::AccountIdWords;
use miden_clob::engine::{after_first_half, batch_decision, live_match_positions, BatchDecision};
use miden_clob::note_codec::{database_file_path, decode_note_data, encode_note_data, NoteDataError};
use miden_clob::pricing::{order_is_bid, str_less};
use miden_clob::status::SwapNoteStatus;

#[test]
fn test_serialize_deserialize_roundtrip() {
    let bytes: Vec<u8> = vec![0, 1, 2, 250, 251, 252, 253, 254, 255, 42];
    let text = encode_note_data(&bytes);
    assert_eq!(decode_note_data(&text).unwrap(), bytes);
    let empty: Vec<u8> = Vec::new();
    assert_eq!(decode_note_data(&encode_note_data(&empty)).unwrap(), empty);
}

#[test]
fn note_data_is_standard_base64() {
    assert_eq!(encode_note_data(&b"hello".to_vec()), "aGVsbG8=");
    assert_eq!(decode_note_data("aGVsbG8=").unwrap(), b"hello".to_vec());
    assert_eq!(decode_note_data("not base64!"), Err(NoteDataError::InvalidBase64));
}

#[test]
fn status_text_roundtrip() {
    let all = [
        SwapNoteStatus::Open,
        SwapNoteStatus::PartiallyFilled,
        SwapNoteStatus::Filled,
        SwapNoteStatus::Cancelled,
    ];
    let texts = ["open", "partially_filled", "filled", "cancelled"];
    for (status, text) in all.iter().zip(texts.iter()) {
        assert_eq!(status.to_status_string(), *text);
        assert_eq!(SwapNoteStatus::parse_status(text).unwrap(), *status);
    }
    let err = SwapNoteStatus::parse_status("Open").unwrap_err();
    assert_eq!(err.value, "Open");
    assert!(SwapNoteStatus::parse_status("").is_err());
}

#[test]
fn database_path_from_url() {
    assert_eq!(database_file_path("sqlite:./clob.sqlite3"), "./clob.sqlite3");
    assert_eq!(database_file_path("sqlite:./data/clob.db?mode=rwc"), "./data/clob.db");
    assert_eq!(database_file_path("./plain.db"), "./plain.db");
    assert_eq!(database_file_path("plain.db?x=1?y=2"), "plain.db");
    assert_eq!(database_file_path("sqlite:"), "");
    assert_eq!(database_file_path("sqlit"), "sqlit");
}

#[test]
fn bid_or_ask() {
    let usdc = AccountIdWords { prefix: 7, suffix: 0 };
    let eth = AccountIdWords { prefix: 9, suffix: 0 };
    assert!(order_is_bid(Some(usdc), usdc, "0x09", "0x07"));
    assert!(!order_is_bid(Some(usdc), eth, "0x01", "0x07"));
    assert!(order_is_bid(None, eth, "0x01", "0x07"));
    assert!(!order_is_bid(None, eth, "0x09", "0x07"));
    assert!(str_less("abc", "abd"));
    assert!(str_less("ab", "abc"));
    assert!(!str_less("abc", "abc"));
    assert!(!str_less("b", "abc"));
}

#[test]
fn batch_decisions() {
    assert_eq!(batch_decision(0, false), BatchDecision::Done(0));
    assert_eq!(batch_decision(7, true), BatchDecision::Done(7));
    assert_eq!(batch_decision(7, false), BatchDecision::Split(3));
    assert_eq!(batch_decision(1, false), BatchDecision::SettleAlone);
    assert_eq!(after_first_half(Some(2)), Some(2));
    assert_eq!(after_first_half(Some(0)), None);
    assert_eq!(after_first_half(None), None);
}

#[test]
fn stale_matches_are_dropped() {
    let ids = vec![
        ("a".to_string(), "b".to_string()),
        ("c".to_string(), "d".to_string()),
        ("b".to_string(), "e".to_string()),
    ];
    let open = vec!["a".to_string(), "b".to_string(), "e".to_string(), "d".to_string()];
    assert_eq!(live_match_positions(&ids, &open), vec![0, 2]);
    assert_eq!(live_match_positions(&ids, &Vec::new()), Vec::<usize>::new());
}

#[test]
fn submit_order_answers() {
    let ok = SubmitOrderResponse::accepted("id-1".to_string());
    assert!(ok.success);
    assert_eq!(ok.order_id, "id-1");
    assert_eq!(
        ok.message,
        "Order submitted successfully. Matching engine will process automatically."
    );
    let no = SubmitOrderResponse::rejected("Invalid note data: x".to_string());
    assert!(!no.success);
    assert_eq!(no.order_id, "");
    assert_eq!(no.message, "Invalid note data: x");
    let req = SubmitOrderRequest { note_data: "aGVsbG8=".to_string() };
    assert_eq!(decode_note_data(&req.note_data).unwrap(), b"hello".to_vec());
    let q = OrderBookQuery { base_asset: "eth".to_string(), quote_asset: "usdc".to_string() };
    let u = UserOrdersQuery { user_id: "u".to_string() };
    assert_eq!(q.base_asset, "eth");
    assert_eq!(u.user_id, "u");
}
