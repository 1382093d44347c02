//! Reservation management core: the payment-mode codec, the payment-record
//! document codec, and validation and assembly of reservation rows.
//!
//! Storage, HTTP routing and page rendering live outside this crate; the
//! types here carry the row data as plain values, and the codecs fix the
//! stored shape of the payment document.

pub mod datetime;
pub mod errors;
pub mod json;
pub mod payment;
pub mod property;
pub mod reservation;
pub mod text;
