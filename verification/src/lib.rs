//! A schema-driven derivation engine for sparse record updates.
//!
//! Given the declaration of a data record — an ordered list of fields with
//! types and per-field flags — this crate derives the record's partial
//! companion type (a sparse update: some fields carry a value, others are
//! absent), the merge semantics between a record and a partial
//! (`is_modified`, `take`, `patch`), and a compact binary encoding of both
//! forms, with one leading identity byte, a presence bitmask, and nested
//! records flattened into their parent's payload.
//!
//! - [`schema`] holds the schema model and its validation;
//! - [`derive`] computes the partial companion schema;
//! - [`values`] holds runtime record and partial instances and their models;
//! - [`merge`] is the merge/patch engine;
//! - [`layout`] computes unpadded sizes and mask widths;
//! - [`mask`] is the presence bitmask;
//! - [`codec`] states both wire encodings mathematically;
//! - [`wire`] serializes and deserializes against those statements;
//! - [`roundtrip`] proves that decoding an encoding gives the value back.

use vstd::prelude::*;

pub mod codec;
pub mod derive;
pub mod layout;
pub mod mask;
pub mod merge;
pub mod names;
pub mod roundtrip;
pub mod schema;
pub mod values;
pub mod wire;

verus! {

/// The identity byte of a record's partial companion sits 128 above the
/// record's own identity byte, so one dispatch table can tell the two
/// message kinds apart.
pub fn partial_identity(id: u8) -> (r: u8)
    requires
        id <= 127,
    ensures
        r == id + 128,
{
    id + 128
}

} // verus!
