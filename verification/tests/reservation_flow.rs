use resvm::datetime::{Date, TimeOfDay};
use resvm::errors::ValidationError;
use resvm::payment::PaymentDocument;
use resvm::property::{NewProperty, NewPropertyUser, Property, PropertyUsers, Roles};
use resvm::reservation::{build_reservation, NewResv, Reservation};

fn sample_reservation(advance_amount: Option<i32>) -> Reservation {
    Reservation {
        id: 1,
        name: "Jane".to_string(),
        contact: "555-0100".to_string(),
        seating: "Patio".to_string(),
        specific_seating_requested: true,
        advance: true,
        advance_method: PaymentDocument {
            mode_of_payment: 2,
            payment_transaction_id: Some("TX1".to_string()),
            payment_receiver: Some("Bob".to_string()),
            payment_received_date: Some(Date::new(2024, 1, 15).unwrap()),
        },
        advance_amount,
        confirmed: false,
        reservation_date: Date::new(2024, 2, 1).unwrap(),
        reservation_time: TimeOfDay { hour: 18, minute: 0, second: 0 },
        property_id: uuid::Uuid::new_v4().as_u128(),
    }
}

#[test]
fn entity_construction_end_to_end() {
    let pid = uuid::Uuid::parse_str("67e55044-10b1-426f-9247-bb680e5fe0c8")
        .unwrap()
        .as_u128();
    let resv = build_reservation(
        "Jane".to_string(),
        "555-0100".to_string(),
        "Patio".to_string(),
        true,
        true,
        "Card",
        Some("TX1".to_string()),
        Some("Bob".to_string()),
        Some(Date::new(2024, 1, 15).unwrap()),
        Some(500),
        false,
        Date::new(2024, 2, 1).unwrap(),
        "1800",
        pid,
    )
    .unwrap();
    assert_eq!(resv.name, "Jane");
    assert_eq!(resv.contact, "555-0100");
    assert_eq!(resv.seating, "Patio");
    assert!(resv.specific_seating_requested);
    assert!(resv.advance);
    assert_eq!(resv.advance_method.mode_of_payment, 2);
    assert_eq!(resv.advance_method.payment_transaction_id, Some("TX1".to_string()));
    assert_eq!(resv.advance_method.payment_receiver, Some("Bob".to_string()));
    assert_eq!(
        resv.advance_method.payment_received_date,
        Some(Date { year: 2024, month: 1, day: 15 })
    );
    assert_eq!(resv.advance_amount, Some(500));
    assert!(!resv.confirmed);
    assert_eq!(resv.reservation_date, Date { year: 2024, month: 2, day: 1 });
    assert_eq!(resv.reservation_time, TimeOfDay { hour: 18, minute: 0, second: 0 });
    assert_eq!(resv.property_id, pid);
}

#[test]
fn construction_rejects_unknown_payment_tag() {
    let e = build_reservation(
        "Jane".to_string(),
        "555-0100".to_string(),
        "Patio".to_string(),
        false,
        false,
        "Cheque",
        None,
        None,
        None,
        None,
        false,
        Date::new(2024, 2, 1).unwrap(),
        "1800",
        1,
    )
    .unwrap_err();
    assert_eq!(e, ValidationError::UnknownPaymentTag);
}

#[test]
fn construction_rejects_bad_time() {
    let e = build_reservation(
        "Jane".to_string(),
        "555-0100".to_string(),
        "Patio".to_string(),
        false,
        false,
        "Cash",
        None,
        None,
        None,
        None,
        false,
        Date::new(2024, 2, 1).unwrap(),
        "9pm",
        1,
    )
    .unwrap_err();
    assert_eq!(e, ValidationError::TimeWrongLength);
}

#[test]
fn negative_advance_amount_displays_as_zero() {
    let resv = sample_reservation(Some(-50));
    assert_eq!(resv.display_advance_amount(), 0);
    assert_eq!(resv.advance_amount, Some(-50));
}

#[test]
fn advance_amount_display_cases() {
    assert_eq!(sample_reservation(Some(500)).display_advance_amount(), 500);
    assert_eq!(sample_reservation(Some(0)).display_advance_amount(), 0);
    assert_eq!(sample_reservation(None).display_advance_amount(), 0);
}

#[test]
fn new_resv_keeps_its_fields() {
    let doc = PaymentDocument {
        mode_of_payment: 1,
        payment_transaction_id: None,
        payment_receiver: None,
        payment_received_date: None,
    };
    let resv = NewResv::new(
        "A".to_string(),
        "B".to_string(),
        "C".to_string(),
        false,
        true,
        doc,
        None,
        true,
        Date::new(2025, 6, 30).unwrap(),
        TimeOfDay { hour: 7, minute: 5, second: 0 },
        42,
    );
    assert_eq!(resv.name, "A");
    assert_eq!(resv.contact, "B");
    assert_eq!(resv.seating, "C");
    assert!(!resv.specific_seating_requested);
    assert!(resv.advance);
    assert_eq!(resv.advance_method.mode_of_payment, 1);
    assert_eq!(resv.advance_amount, None);
    assert!(resv.confirmed);
    assert_eq!(resv.reservation_date, Date { year: 2025, month: 6, day: 30 });
    assert_eq!(resv.reservation_time, TimeOfDay { hour: 7, minute: 5, second: 0 });
    assert_eq!(resv.property_id, 42);
}

#[test]
fn property_constructors_keep_their_fields() {
    let pid = uuid::Uuid::new_v4().as_u128();
    let p = NewProperty::new(
        pid,
        "Seaside".to_string(),
        "hashed".to_string(),
        "owner@example.com".to_string(),
        "555-0199".to_string(),
    );
    assert_eq!(p.property_id, pid);
    assert_eq!(p.property_name, "Seaside");
    assert_eq!(p.property_password, "hashed");
    assert_eq!(p.property_email, "owner@example.com");
    assert_eq!(p.property_phone, "555-0199");

    let built = Property::build((
        pid,
        "Seaside".to_string(),
        "hashed".to_string(),
        "owner@example.com".to_string(),
        "555-0199".to_string(),
    ));
    assert_eq!(built.property_id, pid);
    assert_eq!(built.property_name, "Seaside");

    let u = PropertyUsers::new(7, "staff".to_string(), "pw".to_string(), 2, pid);
    assert_eq!(u.user_id, 7);
    assert_eq!(u.user_name, "staff");
    assert_eq!(u.user_role, 2);
    assert_eq!(u.property_id, pid);

    let nu = NewPropertyUser::new("staff".to_string(), "pw".to_string(), 3, pid);
    assert_eq!(nu.user_name, "staff");
    assert_eq!(nu.user_role, 3);

    let role = Roles::new(1, "PropertyAdmin".to_string());
    assert_eq!(role.role_id, 1);
    assert_eq!(role.role_name, "PropertyAdmin");
}
