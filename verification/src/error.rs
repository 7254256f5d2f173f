//! The error taxonomy: flattening failures, schema conflicts, and failures
//! reported by the index engine.

use vstd::prelude::*;

verus! {

/// Everything a library call can fail with. Engine and query failures carry
/// the engine's own message verbatim.
#[derive(Clone, Debug, PartialEq)]
pub enum Error {
    /// A record shape the flat field model cannot address: a keyed aggregate
    /// whose fields sit directly inside an unkeyed sequence.
    UnsupportedShape,
    /// A data-carrying variant; the flat field model has no union of shapes
    /// at one path.
    UnsupportedVariant,
    /// A map key that cannot be rendered to a string.
    InvalidKey,
    /// An ordinal segment counter ran past the machine limit.
    Overflow,
    /// One path observed with two different value types under one
    /// fingerprint.
    SchemaConflict,
    /// A document field whose path is missing from the schema it is being
    /// materialized against.
    MissingField,
    /// A failure from the index engine, wrapped verbatim.
    Engine(String),
    /// A malformed query, rejected before any results were produced.
    QuerySetup(String),
}

impl Error {
    /// A human-readable description; engine and query errors carry the
    /// engine's own message through unchanged.
    pub fn message(&self) -> (r: String)
        ensures
            (self matches Error::Engine(m) ==> r@ == m@),
            (self matches Error::QuerySetup(m) ==> r@ == m@),
    {
        match self {
            Error::UnsupportedShape => "unsupported record shape".to_owned(),
            Error::UnsupportedVariant => "data-carrying variants are unsupported".to_owned(),
            Error::InvalidKey => "unsupported key type".to_owned(),
            Error::Overflow => "too many unlabeled fields".to_owned(),
            Error::SchemaConflict => "one path observed with two types".to_owned(),
            Error::MissingField => "missing field".to_owned(),
            Error::Engine(m) => m.clone(),
            Error::QuerySetup(m) => m.clone(),
        }
    }
}

} // verus!
