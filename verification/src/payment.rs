use vstd::prelude::*;

use crate::datetime::Date;
use crate::errors::{DecodeError, DocumentError, ReadError, ValidationError};
use crate::text::str_chars_eq;

verus! {

/// How the advance for a reservation was paid. The set of tags is closed:
/// every stored payment mode is exactly one of these.
#[derive(Clone, Copy, Debug, PartialEq, Eq, Structural)]
pub enum PaymentMode {
    NotPaid,
    Cash,
    Card,
    Gpay,
}

/// The fixed integer that stands for each tag in the stored payment document.
/// This assignment is a stable on-disk contract: changing it would silently
/// corrupt the meaning of historical rows.
pub open spec fn spec_encode(mode: PaymentMode) -> int {
    match mode {
        PaymentMode::NotPaid => 0,
        PaymentMode::Cash => 1,
        PaymentMode::Card => 2,
        PaymentMode::Gpay => 3,
    }
}

/// The tag a stored integer stands for, if any.
pub open spec fn spec_decode(code: int) -> Option<PaymentMode> {
    if code == 0 {
        Some(PaymentMode::NotPaid)
    } else if code == 1 {
        Some(PaymentMode::Cash)
    } else if code == 2 {
        Some(PaymentMode::Card)
    } else if code == 3 {
        Some(PaymentMode::Gpay)
    } else {
        None
    }
}

/// The tag named by a client-supplied string, if it names one.
pub open spec fn spec_parse_tag(s: Seq<char>) -> Option<PaymentMode> {
    if s == "NotPaid"@ {
        Some(PaymentMode::NotPaid)
    } else if s == "Cash"@ {
        Some(PaymentMode::Cash)
    } else if s == "Card"@ {
        Some(PaymentMode::Card)
    } else if s == "Gpay"@ {
        Some(PaymentMode::Gpay)
    } else {
        None
    }
}

impl PaymentMode {
    /// The integer this tag is stored as.
    pub fn encode(&self) -> (code: i32)
        ensures
            code == spec_encode(*self),
    {
        match self {
            PaymentMode::NotPaid => 0,
            PaymentMode::Cash => 1,
            PaymentMode::Card => 2,
            PaymentMode::Gpay => 3,
        }
    }

    /// Strict decoding of a stored integer. Every integer outside the known
    /// set is a `DecodeError` carrying that integer, never a default tag.
    pub fn decode(code: i32) -> (r: Result<PaymentMode, DecodeError>)
        ensures
            r matches Ok(mode) ==> spec_decode(code as int) == Some(mode),
            r matches Err(e) ==> spec_decode(code as int) is None && e.code == code,
            r is Ok <==> 0 <= code <= 3,
    {
        match code {
            0 => Ok(PaymentMode::NotPaid),
            1 => Ok(PaymentMode::Cash),
            2 => Ok(PaymentMode::Card),
            3 => Ok(PaymentMode::Gpay),
            _ => Err(DecodeError { code }),
        }
    }

    /// Validates a client-supplied payment-mode field against the closed tag
    /// set. Anything but the four tag names is rejected; in particular a raw
    /// integer never crosses this boundary unchecked.
    pub fn parse_tag(tag: &str) -> (r: Result<PaymentMode, ValidationError>)
        ensures
            r == match spec_parse_tag(tag@) {
                Some(mode) => Ok::<PaymentMode, ValidationError>(mode),
                None => Err::<PaymentMode, ValidationError>(ValidationError::UnknownPaymentTag),
            },
    {
        if str_chars_eq(tag, "NotPaid") {
            Ok(PaymentMode::NotPaid)
        } else if str_chars_eq(tag, "Cash") {
            Ok(PaymentMode::Cash)
        } else if str_chars_eq(tag, "Card") {
            Ok(PaymentMode::Card)
        } else if str_chars_eq(tag, "Gpay") {
            Ok(PaymentMode::Gpay)
        } else {
            Err(ValidationError::UnknownPaymentTag)
        }
    }
}

/// Round-trip law: decoding the encoding of any payment tag yields the tag.
pub proof fn lemma_mode_round_trip(mode: PaymentMode)
    ensures
        spec_decode(spec_encode(mode)) == Some(mode),
{
}

/// Decoding yields a tag exactly for the four known codes; every other
/// integer is rejected.
pub proof fn lemma_decode_rejects_unknown(code: int)
    ensures
        spec_decode(code) is Some <==> 0 <= code <= 3,
{
}

/// Structured payment details as staff submit them: the tag plus the
/// optional transaction metadata. When the mode is `NotPaid` the optional
/// fields are expected absent; when paid, a transaction id and receiver are
/// expected present. The record exists only embedded in a reservation.
#[derive(Clone, Debug)]
pub struct PaymentMethod {
    pub mode_of_payment: PaymentMode,
    pub payment_transaction_id: Option<String>,
    pub payment_receiver: Option<String>,
    pub payment_received_date: Option<Date>,
}

/// The payment document as one value of the reservation row's document
/// column: the encoded mode plus the three optional fields, exactly the
/// four named fields of the stored shape.
#[derive(Clone, Debug)]
pub struct PaymentDocument {
    pub mode_of_payment: i32,
    pub payment_transaction_id: Option<String>,
    pub payment_receiver: Option<String>,
    pub payment_received_date: Option<Date>,
}

/// An optional string by its characters.
pub open spec fn spec_opt_str_view(o: Option<String>) -> Option<Seq<char>> {
    match o {
        Some(s) => Some(s@),
        None => None,
    }
}

/// The mathematical content of a payment document: the mode code as an
/// integer and the three optional fields, strings by their characters.
pub ghost struct DocumentView {
    pub mode_of_payment: int,
    pub payment_transaction_id: Option<Seq<char>>,
    pub payment_receiver: Option<Seq<char>>,
    pub payment_received_date: Option<Date>,
}

impl DocumentView {
    /// The shape of documents the library itself writes: a known mode code
    /// and, when a received date is present, a real calendar date.
    pub open spec fn wf(self) -> bool {
        spec_decode(self.mode_of_payment) is Some && (self.payment_received_date matches Some(d)
            ==> d.valid())
    }
}

impl View for PaymentDocument {
    type V = DocumentView;

    open spec fn view(&self) -> DocumentView {
        DocumentView {
            mode_of_payment: self.mode_of_payment as int,
            payment_transaction_id: spec_opt_str_view(self.payment_transaction_id),
            payment_receiver: spec_opt_str_view(self.payment_receiver),
            payment_received_date: self.payment_received_date,
        }
    }
}

/// The document a payment record is stored as.
pub open spec fn spec_serialize(m: PaymentMethod) -> PaymentDocument {
    PaymentDocument {
        mode_of_payment: spec_encode(m.mode_of_payment) as i32,
        payment_transaction_id: m.payment_transaction_id,
        payment_receiver: m.payment_receiver,
        payment_received_date: m.payment_received_date,
    }
}

/// The record a stored document strictly decodes to, or the first failure:
/// a mode code that matches no tag, then an optional field holding null
/// where the strict path extracts a value.
pub open spec fn spec_deserialize(doc: PaymentDocument) -> Result<PaymentMethod, ReadError> {
    match spec_decode(doc.mode_of_payment as int) {
        None => Err(ReadError::Decode(DecodeError { code: doc.mode_of_payment })),
        Some(mode) => {
            if doc.payment_transaction_id is None || doc.payment_receiver is None
                || doc.payment_received_date is None {
                Err(ReadError::Document(DocumentError::NullField))
            } else {
                Ok(
                    PaymentMethod {
                        mode_of_payment: mode,
                        payment_transaction_id: doc.payment_transaction_id,
                        payment_receiver: doc.payment_receiver,
                        payment_received_date: doc.payment_received_date,
                    },
                )
            }
        },
    }
}

impl PaymentMethod {
    /// A record whose received date, when present, is a real calendar date.
    pub open spec fn wf(self) -> bool {
        self.payment_received_date matches Some(d) ==> d.valid()
    }

    /// A record with all three optional fields recorded: the only records
    /// the strict read path hands back.
    pub open spec fn fully_recorded(self) -> bool {
        self.payment_transaction_id is Some && self.payment_receiver is Some
            && self.payment_received_date is Some
    }

    pub fn new(
        mode_of_payment: PaymentMode,
        payment_transaction_id: Option<String>,
        payment_receiver: Option<String>,
        payment_received_date: Option<Date>,
    ) -> (r: PaymentMethod)
        ensures
            r.mode_of_payment == mode_of_payment,
            r.payment_transaction_id == payment_transaction_id,
            r.payment_receiver == payment_receiver,
            r.payment_received_date == payment_received_date,
    {
        PaymentMethod { mode_of_payment, payment_transaction_id, payment_receiver, payment_received_date }
    }

    /// Flattens the record into the stored document shape, encoding the tag
    /// via the payment-mode codec. This is the only path that writes the
    /// document, so every document the library writes has a known mode code.
    pub fn serialize(self) -> (doc: PaymentDocument)
        ensures
            doc == spec_serialize(self),
            spec_decode(doc.mode_of_payment as int) == Some(self.mode_of_payment),
            self.wf() ==> doc.wf(),
    {
        proof {
            lemma_mode_round_trip(self.mode_of_payment);
        }
        let code = self.mode_of_payment.encode();
        PaymentDocument {
            mode_of_payment: code,
            payment_transaction_id: self.payment_transaction_id,
            payment_receiver: self.payment_receiver,
            payment_received_date: self.payment_received_date,
        }
    }
}

impl PaymentDocument {
    /// The shape of documents the library itself writes: a known mode code
    /// and, when a received date is present, a real calendar date.
    pub open spec fn wf(self) -> bool {
        self@.wf()
    }

    /// Whether this document has the shape the library itself writes: used
    /// to establish `wf` before rendering a document of unchecked origin.
    pub fn is_wf(&self) -> (b: bool)
        ensures
            b == self.wf(),
    {
        let mode_known = match PaymentMode::decode(self.mode_of_payment) {
            Ok(_) => true,
            Err(_) => false,
        };
        let date_ok = match &self.payment_received_date {
            None => true,
            Some(d) => match Date::new(d.year, d.month, d.day) {
                Ok(_) => true,
                Err(_) => false,
            },
        };
        mode_known && date_ok
    }

    /// Strictly rebuilds the structured record from a stored document. An
    /// unknown mode code propagates as a `DecodeError`, never coerced to a
    /// default tag; and each optional field must hold a value — a null field
    /// is an error here, never a default. Substituting sentinel text for an
    /// absent field belongs to the presentation layer, not to this decode.
    pub fn deserialize(self) -> (r: Result<PaymentMethod, ReadError>)
        ensures
            r == spec_deserialize(self),
    {
        let mode = match PaymentMode::decode(self.mode_of_payment) {
            Ok(mode) => mode,
            Err(e) => {
                return Err(ReadError::Decode(e));
            },
        };
        match (self.payment_transaction_id, self.payment_receiver, self.payment_received_date) {
            (Some(tx), Some(rc), Some(date)) => Ok(
                PaymentMethod {
                    mode_of_payment: mode,
                    payment_transaction_id: Some(tx),
                    payment_receiver: Some(rc),
                    payment_received_date: Some(date),
                },
            ),
            _ => Err(ReadError::Document(DocumentError::NullField)),
        }
    }
}

/// Record round-trip law: deserializing the document a fully recorded
/// payment record was serialized to yields the record back, unchanged. A
/// record with an absent optional field serializes to a document with a
/// null field, which the strict decode rejects.
pub proof fn lemma_payment_record_round_trip(m: PaymentMethod)
    requires
        m.fully_recorded(),
    ensures
        spec_deserialize(spec_serialize(m)) == Ok::<PaymentMethod, ReadError>(m),
{
    lemma_mode_round_trip(m.mode_of_payment);
}

impl PartialEq for PaymentMethod {
    /// Two records are equal when the tags agree and the optional fields
    /// agree, strings by their characters.
    fn eq(&self, other: &Self) -> (r: bool) {
        let modes_eq = self.mode_of_payment == other.mode_of_payment;
        let tx_eq = match (&self.payment_transaction_id, &other.payment_transaction_id) {
            (None, None) => true,
            (Some(a), Some(b)) => str_chars_eq(a.as_str(), b.as_str()),
            _ => false,
        };
        let rc_eq = match (&self.payment_receiver, &other.payment_receiver) {
            (None, None) => true,
            (Some(a), Some(b)) => str_chars_eq(a.as_str(), b.as_str()),
            _ => false,
        };
        let date_eq = match (&self.payment_received_date, &other.payment_received_date) {
            (None, None) => true,
            (Some(a), Some(b)) => *a == *b,
            _ => false,
        };
        modes_eq && tx_eq && rc_eq && date_eq
    }
}

impl vstd::std_specs::cmp::PartialEqSpecImpl for PaymentMethod {
    open spec fn obeys_eq_spec() -> bool {
        true
    }

    open spec fn eq_spec(&self, other: &Self) -> bool {
        self.mode_of_payment == other.mode_of_payment && (match (
            self.payment_transaction_id,
            other.payment_transaction_id,
        ) {
            (None, None) => true,
            (Some(a), Some(b)) => a@ == b@,
            _ => false,
        }) && (match (self.payment_receiver, other.payment_receiver) {
            (None, None) => true,
            (Some(a), Some(b)) => a@ == b@,
            _ => false,
        }) && self.payment_received_date == other.payment_received_date
    }
}

} // verus!
