//! The tags and the names of a schema's fields, side by side.

use vstd::prelude::*;

verus! {

/// The tag list of a schema and the parallel list of field names.
pub struct FieldMetadata<const N: usize> {
    field_type: &'static [u8; N],
    field_name: &'static [&'static str; N],
}

impl<const N: usize> FieldMetadata<N> {
    /// The tags, in field order.
    pub closed spec fn types(&self) -> Seq<u8> {
        self.field_type@
    }

    /// The names, in field order.
    pub closed spec fn names(&self) -> Seq<&'static str> {
        self.field_name@
    }

    /// Pairs a tag list with the names of its fields.
    pub fn new(field_type: &'static [u8; N], field_name: &'static [&'static str; N]) -> (m: Self)
        ensures
            m.types() == field_type@,
            m.names() == field_name@,
    {
        FieldMetadata { field_type, field_name }
    }

    /// The tags, in field order.
    pub fn field_type(&self) -> (t: &'static [u8])
        ensures
            t@ == self.types(),
            t@.len() == N,
    {
        self.field_type.as_slice()
    }

    /// The names, in field order.
    pub fn field_name(&self) -> (t: &'static [&'static str])
        ensures
            t@ == self.names(),
            t@.len() == N,
    {
        self.field_name.as_slice()
    }
}

} // verus!
