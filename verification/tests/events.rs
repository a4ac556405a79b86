use dexpaprika_cli::events::assemble_event;
use dexpaprika_cli::events::decode_record;
use dexpaprika_cli::events::DecodeError;
use dexpaprika_cli::events::RawStreamEvent;
use dexpaprika_cli::events::StreamEvent;
use dexpaprika_cli::events::WireField;

#[test]
fn decode_full_record_renames_fields() {
    let payload =
        br#"{"a":"0xc02aaa","c":"ethereum","p":"1850.125","t":1700000000,"t_p":1699999999}"#;
    let event = decode_record(payload).unwrap();
    assert_eq!(event.address, "0xc02aaa");
    assert_eq!(event.chain, "ethereum");
    assert_eq!(event.price_usd, "1850.125");
    assert_eq!(event.timestamp, 1700000000);
    assert_eq!(event.price_timestamp, 1699999999);
}

#[test]
fn decode_names_missing_field() {
    let payload = br#"{"a":"0xc02aaa","c":"ethereum","t":1700000000,"t_p":1699999999}"#;
    assert_eq!(
        decode_record(payload).unwrap_err(),
        DecodeError::MalformedEvent(WireField::PriceUsd)
    );
}

#[test]
fn decode_names_first_missing_field_in_wire_order() {
    assert_eq!(
        decode_record(br#"{"t":1}"#).unwrap_err(),
        DecodeError::MalformedEvent(WireField::Address)
    );
    assert_eq!(
        decode_record(br#"{"a":"x","p":"1"}"#).unwrap_err(),
        DecodeError::MalformedEvent(WireField::Chain)
    );
}

#[test]
fn decode_rejects_type_mismatch() {
    let payload = br#"{"a":"0x1","c":"ethereum","p":"2.5","t":"not-a-number","t_p":2}"#;
    assert_eq!(
        decode_record(payload).unwrap_err(),
        DecodeError::MalformedEvent(WireField::Timestamp)
    );
}

#[test]
fn decode_rejects_non_json() {
    assert_eq!(decode_record(b"hello there").unwrap_err(), DecodeError::NotJson);
}

#[test]
fn wire_keys_name_the_protocol_fields() {
    assert_eq!(WireField::Address.wire_key(), "a");
    assert_eq!(WireField::Chain.wire_key(), "c");
    assert_eq!(WireField::PriceUsd.wire_key(), "p");
    assert_eq!(WireField::Timestamp.wire_key(), "t");
    assert_eq!(WireField::PriceTimestamp.wire_key(), "t_p");
}

#[test]
fn assemble_requires_all_five_fields() {
    let r = assemble_event(
        Some("0x1".to_string()),
        Some("bsc".to_string()),
        Some("3.5".to_string()),
        Some(10),
        None,
    );
    assert_eq!(
        r.unwrap_err(),
        DecodeError::MalformedEvent(WireField::PriceTimestamp)
    );
}

#[test]
fn normalization_is_a_lossless_rename() {
    let raw = RawStreamEvent {
        address: "0xabc".to_string(),
        chain: "solana".to_string(),
        price_usd: "0.004". to_string(),
        timestamp: -5,
        price_timestamp: 0,
    };
    let event = StreamEvent::from(raw);
    assert_eq!(event.address, "0xabc");
    assert_eq!(event.chain, "solana");
    assert_eq!(event.price_usd, "0.004");
    assert_eq!(event.timestamp, -5);
    assert_eq!(event.price_timestamp, 0);
}
