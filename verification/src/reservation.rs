use vstd::prelude::*;

use crate::datetime::{spec_parse_time, parse_reservation_time, Date, TimeOfDay};
use crate::errors::ValidationError;
use crate::payment::{
    spec_parse_tag, spec_serialize, PaymentDocument, PaymentMethod, PaymentMode,
};

verus! {

/// A reservation row as it is handed to storage for insertion; the
/// identifier is assigned by storage. The payment details travel in
/// `advance_method`, the row's document column.
#[derive(Clone, Debug)]
pub struct NewResv {
    pub name: String,
    pub contact: String,
    pub seating: String,
    pub specific_seating_requested: bool,
    pub advance: bool,
    pub advance_method: PaymentDocument,
    pub advance_amount: Option<i32>,
    pub confirmed: bool,
    pub reservation_date: Date,
    pub reservation_time: TimeOfDay,
    pub property_id: u128,
}

impl NewResv {
    pub fn new(
        name: String,
        contact: String,
        seating: String,
        specific_seating_requested: bool,
        advance: bool,
        advance_method: PaymentDocument,
        advance_amount: Option<i32>,
        confirmed: bool,
        reservation_date: Date,
        reservation_time: TimeOfDay,
        property_id: u128,
    ) -> (r: NewResv)
        ensures
            r == (NewResv {
                name,
                contact,
                seating,
                specific_seating_requested,
                advance,
                advance_method,
                advance_amount,
                confirmed,
                reservation_date,
                reservation_time,
                property_id,
            }),
    {
        NewResv {
            name,
            contact,
            seating,
            specific_seating_requested,
            advance,
            advance_method,
            advance_amount,
            confirmed,
            reservation_date,
            reservation_time,
            property_id,
        }
    }
}

/// A reservation row as storage returns it, identifier included.
#[derive(Clone, Debug)]
pub struct Reservation {
    pub id: i32,
    pub name: String,
    pub contact: String,
    pub seating: String,
    pub specific_seating_requested: bool,
    pub advance: bool,
    pub advance_method: PaymentDocument,
    pub advance_amount: Option<i32>,
    pub confirmed: bool,
    pub reservation_date: Date,
    pub reservation_time: TimeOfDay,
    pub property_id: u128,
}

/// The advance amount as the pages show it: a missing or non-positive
/// amount shows as zero.
pub open spec fn spec_display_advance_amount(amount: Option<i32>) -> int {
    match amount {
        Some(v) => if v <= 0 {
            0
        } else {
            v as int
        },
        None => 0,
    }
}

impl Reservation {
    /// The advance amount to render. This is presentation policy only: the
    /// stored value is read, never changed, so a negative retrieved amount
    /// stays negative in the row while showing as zero.
    pub fn display_advance_amount(&self) -> (shown: i32)
        ensures
            shown == spec_display_advance_amount(self.advance_amount),
            shown >= 0,
    {
        match self.advance_amount {
            Some(amount) => if amount <= 0 {
                0
            } else {
                amount
            },
            None => 0,
        }
    }
}

/// What assembling a reservation from raw form fields yields. The payment
/// tag must name one of the closed set and the time field must be a valid
/// HHMM string; the first failing check, in that order, is the error.
pub open spec fn spec_build_reservation(
    name: String,
    contact: String,
    seating: String,
    specific_seating_requested: bool,
    advance: bool,
    mode_of_payment: Seq<char>,
    payment_transaction_id: Option<String>,
    payment_receiver: Option<String>,
    payment_received_date: Option<Date>,
    advance_amount: Option<i32>,
    confirmed: bool,
    reservation_date: Date,
    reservation_time: Seq<char>,
    property_id: u128,
) -> Result<NewResv, ValidationError> {
    match spec_parse_tag(mode_of_payment) {
        None => Err(ValidationError::UnknownPaymentTag),
        Some(mode) => match spec_parse_time(reservation_time) {
            Err(e) => Err(e),
            Ok(time) => Ok(
                NewResv {
                    name,
                    contact,
                    seating,
                    specific_seating_requested,
                    advance,
                    advance_method: spec_serialize(
                        PaymentMethod {
                            mode_of_payment: mode,
                            payment_transaction_id,
                            payment_receiver,
                            payment_received_date,
                        },
                    ),
                    advance_amount,
                    confirmed,
                    reservation_date,
                    reservation_time: time,
                    property_id,
                },
            ),
        },
    }
}

/// Validates raw reservation-form fields and assembles the row to insert:
/// the payment-mode field is parsed against the closed tag set, the payment
/// record is serialized into the document column shape, and the time field
/// is parsed as HHMM. The advance amount is stored as submitted; display
/// clamping happens only when rendering.
pub fn build_reservation(
    name: String,
    contact: String,
    seating: String,
    specific_seating_requested: bool,
    advance: bool,
    mode_of_payment: &str,
    payment_transaction_id: Option<String>,
    payment_receiver: Option<String>,
    payment_received_date: Option<Date>,
    advance_amount: Option<i32>,
    confirmed: bool,
    reservation_date: Date,
    reservation_time: &str,
    property_id: u128,
) -> (r: Result<NewResv, ValidationError>)
    requires
        reservation_date.valid(),
        payment_received_date matches Some(d) ==> d.valid(),
    ensures
        r == spec_build_reservation(
            name,
            contact,
            seating,
            specific_seating_requested,
            advance,
            mode_of_payment@,
            payment_transaction_id,
            payment_receiver,
            payment_received_date,
            advance_amount,
            confirmed,
            reservation_date,
            reservation_time@,
            property_id,
        ),
        r is Ok <==> spec_parse_tag(mode_of_payment@) is Some && spec_parse_time(
            reservation_time@,
        ) is Ok,
{
    let mode = match PaymentMode::parse_tag(mode_of_payment) {
        Ok(mode) => mode,
        Err(e) => {
            return Err(e);
        },
    };
    let time = match parse_reservation_time(reservation_time) {
        Ok(time) => time,
        Err(e) => {
            return Err(e);
        },
    };
    let record = PaymentMethod::new(
        mode,
        payment_transaction_id,
        payment_receiver,
        payment_received_date,
    );
    let advance_method = record.serialize();
    Ok(
        NewResv::new(
            name,
            contact,
            seating,
            specific_seating_requested,
            advance,
            advance_method,
            advance_amount,
            confirmed,
            reservation_date,
            time,
            property_id,
        ),
    )
}

} // verus!
