//! Typed client core for a JSON-over-HTTPS bot-method API.
//!
//! The crate models one remote method call as a builder value, serializes it
//! under the wire contract (absent optional fields are omitted; identifiers
//! keep their active variant; raw attachments force multipart transport), and
//! decodes the response envelope into a typed payload or a structured error.

use vstd::prelude::*;

pub mod types;
pub mod json;
pub mod parser;
pub mod roundtrip;
pub mod payload;
pub mod requests;
pub mod envelope;

verus! {

/// A marker payload for methods whose success carries no data beyond
/// "it worked".
#[derive(Clone, Copy, Debug, PartialEq, Eq, Structural)]
pub struct True;

} // verus!
