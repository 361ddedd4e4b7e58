//! The ways in which a read or a write can fail.

use vstd::prelude::*;

verus! {

/// Why an access was refused. Every failure is a deterministic property of
/// the bytes and the tag list at hand; none is transient.
#[derive(Clone, Copy, Debug, PartialEq, Eq, Structural)]
pub enum CodecError {
    /// The tag asked for differs from the tag declared at that index.
    SchemaMismatch,
    /// A write was attempted out of the order of the fields, or after the
    /// last declared field.
    SequentialWriteViolation,
    /// The field's bytes would run past the end of what has been written.
    UnexpectedEnd,
    /// A length header starts with the reserved marker, or a string payload
    /// is not UTF-8.
    InvalidEncoding,
}

impl CodecError {
    /// A short description of the failure.
    pub fn message(&self) -> (s: &'static str)
        ensures
            s@ == match *self {
                CodecError::SchemaMismatch => "schema mismatch"@,
                CodecError::SequentialWriteViolation => "sequential write violation"@,
                CodecError::UnexpectedEnd => "unexpected end"@,
                CodecError::InvalidEncoding => "invalid encoding"@,
            },
    {
        match self {
            CodecError::SchemaMismatch => "schema mismatch",
            CodecError::SequentialWriteViolation => "sequential write violation",
            CodecError::UnexpectedEnd => "unexpected end",
            CodecError::InvalidEncoding => "invalid encoding",
        }
    }
}

} // verus!
