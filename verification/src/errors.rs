use vstd::prelude::*;

verus! {

/// Errors surfaced to callers of the user-facing endpoints.
#[derive(Clone, Copy, Debug, PartialEq, Eq, Structural)]
pub enum MyUsersError {
    NotFound,
    InternalServerError,
}

impl MyUsersError {
    /// The HTTP status code that each error is reported with.
    pub fn status_code(&self) -> (code: u16)
        ensures
            *self == MyUsersError::NotFound ==> code == 404,
            *self == MyUsersError::InternalServerError ==> code == 500,
    {
        match self {
            MyUsersError::NotFound => 404,
            MyUsersError::InternalServerError => 500,
        }
    }
}

/// A stored payment-mode integer matched no known tag. The offending code is
/// kept so the failure can be reported; it is never coerced to a default tag.
#[derive(Clone, Copy, Debug, PartialEq, Eq, Structural)]
pub struct DecodeError {
    pub code: i32,
}

/// A raw request field was rejected before a reservation was assembled.
#[derive(Clone, Copy, Debug, PartialEq, Eq, Structural)]
pub enum ValidationError {
    /// The reservation time is not exactly four characters.
    TimeWrongLength,
    /// The reservation time holds a character that is not a decimal digit.
    TimeNotDigits,
    /// The hour part of the reservation time is outside 0..=23.
    HourOutOfRange,
    /// The minute part of the reservation time is outside 0..=59.
    MinuteOutOfRange,
    /// The payment-mode field matches none of the known tags.
    UnknownPaymentTag,
    /// A submitted date is not a real calendar date.
    InvalidDate,
}

/// A stored payment document did not have the shape the strict decode needs.
#[derive(Clone, Copy, Debug, PartialEq, Eq, Structural)]
pub enum DocumentError {
    /// The document framing or a field name is not as stored documents have it.
    Malformed,
    /// A field is present but holds a value of the wrong type.
    WrongFieldType,
    /// The received-date field is not a valid calendar date.
    InvalidDate,
    /// An optional field is null where the strict decode requires a value.
    NullField,
}

/// What can go wrong reading a payment record back from a stored document:
/// the document does not have the strict decode's shape, or its mode code
/// names no tag.
#[derive(Clone, Copy, Debug, PartialEq, Eq, Structural)]
pub enum ReadError {
    Document(DocumentError),
    Decode(DecodeError),
}

} // verus!
