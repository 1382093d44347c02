use resvm::datetime::Date;
use resvm::errors::{DocumentError, ReadError, ValidationError};
use resvm::payment::{PaymentDocument, PaymentMethod, PaymentMode};

#[test]
fn mode_round_trip_all_tags() {
    let tags = [
        PaymentMode::NotPaid,
        PaymentMode::Cash,
        PaymentMode::Card,
        PaymentMode::Gpay,
    ];
    for tag in tags {
        assert_eq!(PaymentMode::decode(tag.encode()).unwrap(), tag);
    }
}

#[test]
fn encoding_is_stable() {
    assert_eq!(PaymentMode::NotPaid.encode(), 0);
    assert_eq!(PaymentMode::Cash.encode(), 1);
    assert_eq!(PaymentMode::Card.encode(), 2);
    assert_eq!(PaymentMode::Gpay.encode(), 3);
}

#[test]
fn decode_rejects_unknown_codes() {
    let e = PaymentMode::decode(4).unwrap_err();
    assert_eq!(e.code, 4);
    let e = PaymentMode::decode(-1).unwrap_err();
    assert_eq!(e.code, -1);
}

#[test]
fn parse_tag_accepts_the_closed_set() {
    assert_eq!(PaymentMode::parse_tag("NotPaid").unwrap(), PaymentMode::NotPaid);
    assert_eq!(PaymentMode::parse_tag("Cash").unwrap(), PaymentMode::Cash);
    assert_eq!(PaymentMode::parse_tag("Card").unwrap(), PaymentMode::Card);
    assert_eq!(PaymentMode::parse_tag("Gpay").unwrap(), PaymentMode::Gpay);
}

#[test]
fn parse_tag_rejects_anything_else() {
    assert_eq!(
        PaymentMode::parse_tag("card").unwrap_err(),
        ValidationError::UnknownPaymentTag
    );
    assert_eq!(
        PaymentMode::parse_tag("2").unwrap_err(),
        ValidationError::UnknownPaymentTag
    );
    assert_eq!(
        PaymentMode::parse_tag("").unwrap_err(),
        ValidationError::UnknownPaymentTag
    );
}

#[test]
fn payment_record_round_trip() {
    let date = Date::new(2024, 3, 1).unwrap();
    let record = PaymentMethod::new(
        PaymentMode::Card,
        Some("TX123".to_string()),
        Some("Alice".to_string()),
        Some(date),
    );
    let expected = record.clone();
    let doc = record.serialize();
    assert_eq!(doc.mode_of_payment, 2);
    assert_eq!(doc.deserialize().unwrap(), expected);
}

#[test]
fn deserialize_rejects_unknown_mode() {
    let doc = PaymentDocument {
        mode_of_payment: 7,
        payment_transaction_id: None,
        payment_receiver: None,
        payment_received_date: None,
    };
    match doc.deserialize().unwrap_err() {
        ReadError::Decode(e) => assert_eq!(e.code, 7),
        other => panic!("expected a decode error, got {:?}", other),
    }
}

#[test]
fn deserialize_rejects_null_fields() {
    let doc = PaymentDocument {
        mode_of_payment: 1,
        payment_transaction_id: None,
        payment_receiver: None,
        payment_received_date: None,
    };
    assert_eq!(
        doc.deserialize().unwrap_err(),
        ReadError::Document(DocumentError::NullField)
    );
    let doc = PaymentDocument {
        mode_of_payment: 2,
        payment_transaction_id: Some("TX1".to_string()),
        payment_receiver: Some("Bob".to_string()),
        payment_received_date: None,
    };
    assert_eq!(
        doc.deserialize().unwrap_err(),
        ReadError::Document(DocumentError::NullField)
    );
}
