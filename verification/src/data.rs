//! The field-definition schema: how to slice one named value out of a
//! Data4 payload body.

use vstd::prelude::*;

verus! {

/// The primitive type of a schema fragment.
#[derive(Debug, Clone, Copy, PartialEq, Eq, Structural)]
pub enum Datatype {
    String,
    Date,
    Integer,
    Float,
}

/// One schema record: where a named value sits in the payload body and
/// how its bytes are read.
///
/// `offset` counts from the start of the body, after the 8-byte header.
/// Numeric values narrower than four bytes are zero-extended at the high
/// end; `fraction` is the divisor of a `Float` value, with absent or
/// zero meaning one.
#[derive(Debug, Clone)]
pub struct GrowattV6EnergyFragment {
    pub name: String,
    pub offset: u32,
    pub bytes_len: u32,
    pub fragment_type: Datatype,
    pub fraction: Option<u32>,
}

} // verus!
