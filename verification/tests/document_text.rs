use resvm::datetime::Date;
use resvm::errors::{DocumentError, ReadError};
use resvm::json::read_payment_method;
use resvm::payment::{PaymentDocument, PaymentMethod, PaymentMode};

fn card_document() -> PaymentDocument {
    PaymentMethod::new(
        PaymentMode::Card,
        Some("TX123".to_string()),
        Some("Alice".to_string()),
        Some(Date::new(2024, 3, 1).unwrap()),
    )
    .serialize()
}

#[test]
fn rendered_text_is_the_frozen_shape() {
    let text = card_document().to_json();
    assert_eq!(
        text,
        "{\"mode_of_payment\":2,\"payment_transaction_id\":\"TX123\",\
         \"payment_receiver\":\"Alice\",\"payment_received_date\":\"2024-03-01\"}"
    );
}

#[test]
fn rendered_text_is_valid_json_for_serde() {
    let text = card_document().to_json();
    let v: serde_json::Value = serde_json::from_str(&text).unwrap();
    assert_eq!(v["mode_of_payment"], serde_json::Value::from(2));
    assert_eq!(v["payment_transaction_id"].as_str(), Some("TX123"));
    assert_eq!(v["payment_receiver"].as_str(), Some("Alice"));
    assert_eq!(v["payment_received_date"].as_str(), Some("2024-03-01"));
}

#[test]
fn rendered_date_matches_chrono_formatting() {
    let text = card_document().to_json();
    let v: serde_json::Value = serde_json::from_str(&text).unwrap();
    let formatted = chrono::NaiveDate::from_ymd_opt(2024, 3, 1)
        .unwrap()
        .format("%Y-%m-%d")
        .to_string();
    assert_eq!(v["payment_received_date"].as_str().unwrap(), formatted);
}

#[test]
fn rendered_nulls_for_absent_fields() {
    let doc = PaymentMethod::new(PaymentMode::NotPaid, None, None, None).serialize();
    let text = doc.to_json();
    assert_eq!(
        text,
        "{\"mode_of_payment\":0,\"payment_transaction_id\":null,\
         \"payment_receiver\":null,\"payment_received_date\":null}"
    );
}

#[test]
fn escaping_survives_serde_parsing() {
    let doc = PaymentMethod::new(
        PaymentMode::Cash,
        Some("a\"b\\c".to_string()),
        None,
        None,
    )
    .serialize();
    let text = doc.to_json();
    let v: serde_json::Value = serde_json::from_str(&text).unwrap();
    assert_eq!(v["payment_transaction_id"].as_str(), Some("a\"b\\c"));
}

#[test]
fn document_text_round_trip() {
    let doc = card_document();
    let text = doc.to_json();
    let parsed = PaymentDocument::from_json(&text).unwrap();
    assert_eq!(parsed.mode_of_payment, doc.mode_of_payment);
    assert_eq!(parsed.payment_transaction_id, doc.payment_transaction_id);
    assert_eq!(parsed.payment_receiver, doc.payment_receiver);
    assert_eq!(parsed.payment_received_date, doc.payment_received_date);
}

#[test]
fn document_text_round_trip_with_escapes_and_nulls() {
    let doc = PaymentMethod::new(
        PaymentMode::Gpay,
        Some("quote\" back\\slash".to_string()),
        None,
        None,
    )
    .serialize();
    let text = doc.to_json();
    let parsed = PaymentDocument::from_json(&text).unwrap();
    assert_eq!(parsed.payment_transaction_id, doc.payment_transaction_id);
    assert_eq!(parsed.payment_receiver, None);
    assert_eq!(parsed.payment_received_date, None);
}

#[test]
fn parsing_rejects_missing_field() {
    let text = "{\"mode_of_payment\":2,\"payment_transaction_id\":null,\
                \"payment_received_date\":null}";
    assert_eq!(
        PaymentDocument::from_json(text).unwrap_err(),
        DocumentError::Malformed
    );
}

#[test]
fn parsing_rejects_wrong_field_type() {
    let text = "{\"mode_of_payment\":\"2\",\"payment_transaction_id\":null,\
                \"payment_receiver\":null,\"payment_received_date\":null}";
    assert_eq!(
        PaymentDocument::from_json(text).unwrap_err(),
        DocumentError::WrongFieldType
    );
    let text = "{\"mode_of_payment\":2,\"payment_transaction_id\":7,\
                \"payment_receiver\":null,\"payment_received_date\":null}";
    assert_eq!(
        PaymentDocument::from_json(text).unwrap_err(),
        DocumentError::WrongFieldType
    );
}

#[test]
fn parsing_rejects_bad_date() {
    let text = "{\"mode_of_payment\":2,\"payment_transaction_id\":null,\
                \"payment_receiver\":null,\"payment_received_date\":\"2024-13-01\"}";
    assert_eq!(
        PaymentDocument::from_json(text).unwrap_err(),
        DocumentError::InvalidDate
    );
}

#[test]
fn parsing_rejects_trailing_text() {
    let text = "{\"mode_of_payment\":2,\"payment_transaction_id\":null,\
                \"payment_receiver\":null,\"payment_received_date\":null} ";
    assert_eq!(
        PaymentDocument::from_json(text).unwrap_err(),
        DocumentError::Malformed
    );
}

#[test]
fn parsing_keeps_unknown_mode_for_decoding() {
    let text = "{\"mode_of_payment\":7,\"payment_transaction_id\":null,\
                \"payment_receiver\":null,\"payment_received_date\":null}";
    let doc = PaymentDocument::from_json(text).unwrap();
    assert_eq!(doc.mode_of_payment, 7);
}

#[test]
fn read_path_decodes_a_stored_record() {
    let text = card_document().to_json();
    let record = read_payment_method(&text).unwrap();
    let expected = PaymentMethod::new(
        PaymentMode::Card,
        Some("TX123".to_string()),
        Some("Alice".to_string()),
        Some(Date::new(2024, 3, 1).unwrap()),
    );
    assert_eq!(record, expected);
}

#[test]
fn read_path_reports_unknown_mode_as_decode_error() {
    let text = "{\"mode_of_payment\":7,\"payment_transaction_id\":null,\
                \"payment_receiver\":null,\"payment_received_date\":null}";
    match read_payment_method(text).unwrap_err() {
        ReadError::Decode(e) => assert_eq!(e.code, 7),
        other => panic!("expected a decode error, got {:?}", other),
    }
}

#[test]
fn read_path_rejects_null_fields() {
    let text = "{\"mode_of_payment\":0,\"payment_transaction_id\":null,\
                \"payment_receiver\":null,\"payment_received_date\":null}";
    assert_eq!(
        read_payment_method(text).unwrap_err(),
        ReadError::Document(DocumentError::NullField)
    );
}

#[test]
fn read_path_reports_bad_framing_as_document_error() {
    match read_payment_method("{}").unwrap_err() {
        ReadError::Document(e) => assert_eq!(e, DocumentError::Malformed),
        other => panic!("expected a document error, got {:?}", other),
    }
}

#[test]
fn document_wf_check() {
    assert!(card_document().is_wf());
    let bad = PaymentDocument {
        mode_of_payment: 9,
        payment_transaction_id: None,
        payment_receiver: None,
        payment_received_date: None,
    };
    assert!(!bad.is_wf());
}
