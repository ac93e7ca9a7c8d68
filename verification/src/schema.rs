//! The schema model: the data a record declaration is reduced to before any
//! derivation runs, together with its validation.
//!
//! A `RecordSchema` is an ordered list of `FieldSpec`s plus record-level
//! metadata. Field order is wire order and is never reordered. Validation
//! rejects the flag combinations and metadata that no derivation can serve;
//! everything downstream (the partial-type deriver, the layout calculator and
//! the wire codec) requires a schema that validated cleanly.

use vstd::prelude::*;

verus! {

/// How the record declares its fields: by name, by position, or not at all
/// (a unit record has no fields).
#[derive(Clone, Copy, Debug, PartialEq, Eq, Structural)]
pub enum LayoutKind {
    Named,
    Positional,
    Unit,
}

/// A wire-codec backend requested for a record. Requesting any backend means
/// a wire codec is wanted, which in turn makes an identity byte mandatory.
/// The two backends agree on the envelope; `CustomPair` additionally admits
/// fields with a caller-supplied codec (`FieldKind::Buffer`).
#[derive(Clone, Copy, Debug, PartialEq, Eq, Structural)]
pub enum CodecBackend {
    FixedWidthPod,
    CustomPair,
}

/// The declared type of one field, as far as the derivation engine needs to
/// know it.
pub enum FieldKind {
    /// A fixed-width plain value of exactly this many bytes; encoded as its
    /// in-memory bit pattern, least-significant byte first.
    Fixed(usize),
    /// A variable-length byte buffer handled by the custom codec pair; the
    /// wire form is a two-byte little-endian length prefix followed by the
    /// bytes. The `usize` is only a capacity hint for buffer pre-reservation.
    Buffer(usize),
    /// A field whose type is itself a record with a derivation of its own;
    /// its wire form is flattened into the parent (no inner identity byte).
    Record(Box<RecordSchema>),
}

/// One field of a record. `required` and `skip` are mutually exclusive;
/// validation rejects the combination.
pub struct FieldSpec {
    pub name: String,
    pub kind: FieldKind,
    pub required: bool,
    pub skip: bool,
}

/// An ordered field list plus the record-level metadata the deriver consumes.
/// `identity` is the leading wire byte (0 to 127) and is required only when a
/// wire codec is requested; `backends` lists the requested wire backends and
/// `capabilities` the derived behaviours requested on the generated types
/// (opaque to the engine, passed through to the partial schema).
pub struct RecordSchema {
    pub name: String,
    pub identity: Option<u8>,
    pub layout: LayoutKind,
    pub fields: Vec<FieldSpec>,
    pub backends: Vec<CodecBackend>,
    pub capabilities: Vec<String>,
}

/// Why a schema was rejected at derivation time.
#[derive(Clone, Copy, Debug, PartialEq, Eq, Structural)]
pub enum SchemaError {
    /// A field was marked both `required` and `skip`.
    RequiredAndSkipConflict,
    /// A non-unit record (or a record used as a nested field) has no
    /// eligible field, so its partial would be meaningless.
    EmptyRecord,
    /// A record with unit layout declared fields.
    UnitWithFields,
    /// More optional slots than the widest presence mask can track.
    TooManyOptionalSlots,
    /// Two different wire backends were requested at once.
    ConflictingBackends,
    /// A wire codec was requested but no identity byte was given.
    MissingIdentityByte,
    /// The identity byte is above 127, leaving no room for the partial's
    /// offset identity.
    IdentityOutOfRange,
}

/// A field takes part in the partial form and the wire formats unless it is
/// skipped.
pub open spec fn eligible(f: FieldSpec) -> bool {
    !f.skip
}

/// An eligible, non-required field becomes a presence-tracked optional slot.
pub open spec fn optional_field(f: FieldSpec) -> bool {
    !f.skip && !f.required
}

/// How many of the first `i` fields are eligible.
pub open spec fn n_eligible(fs: Seq<FieldSpec>, i: int) -> nat
    decreases i,
{
    if i <= 0 {
        0
    } else {
        n_eligible(fs, i - 1) + (if eligible(fs[i - 1]) {
            1nat
        } else {
            0nat
        })
    }
}

/// How many of the first `i` fields are optional slots.
pub open spec fn n_optional(fs: Seq<FieldSpec>, i: int) -> nat
    decreases i,
{
    if i <= 0 {
        0
    } else {
        n_optional(fs, i - 1) + (if optional_field(fs[i - 1]) {
            1nat
        } else {
            0nat
        })
    }
}

/// Any requested backend means the wire codec is wanted.
pub open spec fn wire_requested(s: RecordSchema) -> bool {
    s.backends@.len() > 0
}

/// Two different backends requested at once are mutually exclusive.
pub open spec fn backends_conflict(bs: Seq<CodecBackend>) -> bool {
    exists|i: int, j: int| 0 <= i < bs.len() && 0 <= j < bs.len() && bs[i] != bs[j]
}

/// The widest presence mask is a 16-byte (128-bit) integer.
pub const MAX_OPTIONAL_SLOTS: usize = 128;

/// The first error among the fields `fs[i..]`, walking in declaration order:
/// a flag conflict on the field itself, or any error in a nested record
/// schema, which must itself be fit to stand as a field.
pub open spec fn spec_validate_fields(fs: Seq<FieldSpec>, i: int) -> Result<(), SchemaError>
    decreases fs, 1int, fs.len() - i,
{
    if i < 0 || i >= fs.len() {
        Ok(())
    } else if fs[i].required && fs[i].skip {
        Err(SchemaError::RequiredAndSkipConflict)
    } else {
        match fs[i].kind {
            FieldKind::Record(n) => match spec_validate_sub(*n) {
                Err(e) => Err(e),
                Ok(()) => spec_validate_fields(fs, i + 1),
            },
            _ => spec_validate_fields(fs, i + 1),
        }
    }
}

/// Validation of a record schema standing as a nested field: its own fields
/// must validate, it must not be a unit record (a unit record has no partial
/// payload to flatten), it must keep at least one eligible field, and its
/// optional slots must fit a presence mask. Identity and backends of a
/// nested schema play no part in the parent's derivation and are not
/// checked here.
pub open spec fn spec_validate_sub(s: RecordSchema) -> Result<(), SchemaError>
    decreases s, 2int, 0int,
{
    match spec_validate_fields(s.fields@, 0) {
        Err(e) => Err(e),
        Ok(()) => if s.layout is Unit && s.fields@.len() > 0 {
            Err(SchemaError::UnitWithFields)
        } else if s.layout is Unit {
            Err(SchemaError::EmptyRecord)
        } else if n_eligible(s.fields@, s.fields@.len() as int) == 0 {
            Err(SchemaError::EmptyRecord)
        } else if n_optional(s.fields@, s.fields@.len() as int) > MAX_OPTIONAL_SLOTS as nat {
            Err(SchemaError::TooManyOptionalSlots)
        } else {
            Ok(())
        },
    }
}

/// Validation of a top-level record schema, in this order: per-field checks
/// (flag conflicts and nested schemas, in declaration order), the unit/field
/// consistency checks, the presence-mask width limit, backend exclusivity,
/// and, when a wire codec is requested, the identity byte.
pub open spec fn spec_validate(s: RecordSchema) -> Result<(), SchemaError> {
    match spec_validate_fields(s.fields@, 0) {
        Err(e) => Err(e),
        Ok(()) => if s.layout is Unit && s.fields@.len() > 0 {
            Err(SchemaError::UnitWithFields)
        } else if !(s.layout is Unit) && n_eligible(s.fields@, s.fields@.len() as int) == 0 {
            Err(SchemaError::EmptyRecord)
        } else if n_optional(s.fields@, s.fields@.len() as int) > MAX_OPTIONAL_SLOTS as nat {
            Err(SchemaError::TooManyOptionalSlots)
        } else if backends_conflict(s.backends@) {
            Err(SchemaError::ConflictingBackends)
        } else if wire_requested(s) && s.identity is None {
            Err(SchemaError::MissingIdentityByte)
        } else if wire_requested(s) && (s.identity matches Some(n) && n > 127) {
            Err(SchemaError::IdentityOutOfRange)
        } else {
            Ok(())
        },
    }
}

/// A schema the derivation engine accepts.
pub open spec fn wf_schema(s: RecordSchema) -> bool {
    spec_validate(s) is Ok
}

/// A schema fit to stand as a nested field.
pub open spec fn wf_sub(s: RecordSchema) -> bool {
    spec_validate_sub(s) is Ok
}

/// The identity byte of the partial companion: 128 above the record's own,
/// defined whenever the record's identity leaves room for the offset.
pub open spec fn spec_partial_identity(s: RecordSchema) -> Option<u8> {
    match s.identity {
        Some(n) => if n <= 127 {
            Some((n + 128) as u8)
        } else {
            None
        },
        None => None,
    }
}

/// Every field of a cleanly validated field list is conflict-free, and every
/// nested record schema among them validates as a nested field.
pub proof fn lemma_validate_fields_ok(fs: Seq<FieldSpec>, i: int)
    requires
        spec_validate_fields(fs, 0) is Ok,
        0 <= i < fs.len(),
    ensures
        !(fs[i].required && fs[i].skip),
        fs[i].kind matches FieldKind::Record(n) ==> wf_sub(*n),
    decreases i,
{
    lemma_validate_fields_ok_from(fs, 0, i);
}

/// Helper: the same, starting the walk at any position at or before `i`.
proof fn lemma_validate_fields_ok_from(fs: Seq<FieldSpec>, from: int, i: int)
    requires
        spec_validate_fields(fs, from) is Ok,
        0 <= from <= i < fs.len(),
    ensures
        !(fs[i].required && fs[i].skip),
        fs[i].kind matches FieldKind::Record(n) ==> wf_sub(*n),
    decreases i - from,
{
    if from < i {
        lemma_validate_fields_ok_from(fs, from + 1, i);
    }
}

impl RecordSchema {
    /// Whether this schema is a zero-field (unit) record.
    pub fn is_unit(&self) -> (r: bool)
        ensures
            r == (self.layout is Unit),
    {
        matches!(self.layout, LayoutKind::Unit)
    }
}

/// Checks a field list, walking the fields in declaration order and
/// descending into nested record schemas.
fn validate_fields(fs: &Vec<FieldSpec>) -> (r: Result<(), SchemaError>)
    ensures
        r == spec_validate_fields(fs@, 0),
    decreases *fs,
{
    let n = fs.len();
    for i in 0..n
        invariant
            n == fs@.len(),
            spec_validate_fields(fs@, 0) == spec_validate_fields(fs@, i as int),
        decreases *fs, 0int, n - i,
    {
        let f = &fs[i];
        if f.required && f.skip {
            return Err(SchemaError::RequiredAndSkipConflict);
        }
        match &f.kind {
            FieldKind::Record(nested) => {
                match validate_sub(nested) {
                    Err(e) => {
                        return Err(e);
                    },
                    Ok(()) => {},
                }
            },
            _ => {},
        }
    }
    Ok(())
}

/// Checks a record schema standing as a nested field.
fn validate_sub(s: &RecordSchema) -> (r: Result<(), SchemaError>)
    ensures
        r == spec_validate_sub(*s),
    decreases *s, 1int,
{
    match validate_fields(&s.fields) {
        Err(e) => Err(e),
        Ok(()) => {
            if matches!(s.layout, LayoutKind::Unit) && s.fields.len() > 0 {
                Err(SchemaError::UnitWithFields)
            } else if matches!(s.layout, LayoutKind::Unit) {
                Err(SchemaError::EmptyRecord)
            } else if count_eligible(&s.fields) == 0 {
                Err(SchemaError::EmptyRecord)
            } else if count_optional(&s.fields) > 128 {
                Err(SchemaError::TooManyOptionalSlots)
            } else {
                Ok(())
            }
        },
    }
}

/// How many fields are eligible (not skipped).
pub fn count_eligible(fs: &Vec<FieldSpec>) -> (r: usize)
    ensures
        r == n_eligible(fs@, fs@.len() as int),
{
    let mut r: usize = 0;
    let n = fs.len();
    for i in 0..n
        invariant
            n == fs@.len(),
            r == n_eligible(fs@, i as int),
            r <= i,
    {
        if !fs[i].skip {
            r += 1;
        }
    }
    r
}

/// How many fields become optional slots.
pub fn count_optional(fs: &Vec<FieldSpec>) -> (r: usize)
    ensures
        r == n_optional(fs@, fs@.len() as int),
{
    let mut r: usize = 0;
    let n = fs.len();
    for i in 0..n
        invariant
            n == fs@.len(),
            r == n_optional(fs@, i as int),
            r <= i,
    {
        if !fs[i].skip && !fs[i].required {
            r += 1;
        }
    }
    r
}

/// Whether two different backends are requested at once.
fn backends_have_conflict(bs: &Vec<CodecBackend>) -> (r: bool)
    ensures
        r == backends_conflict(bs@),
{
    let n = bs.len();
    if n == 0 {
        return false;
    }
    let first = bs[0];
    for i in 1..n
        invariant
            n == bs@.len(),
            first == bs@[0],
            forall|j: int| 0 <= j < i ==> bs@[j] == first,
    {
        if !matches!((bs[i], first), (CodecBackend::FixedWidthPod, CodecBackend::FixedWidthPod)
            | (CodecBackend::CustomPair, CodecBackend::CustomPair)) {
            assert(bs@[i as int] != first);
            return true;
        }
    }
    assert forall|i: int, j: int|
        0 <= i < bs@.len() && 0 <= j < bs@.len() implies bs@[i] == bs@[j] by {
        assert(bs@[i] == first);
        assert(bs@[j] == first);
    }
    false
}

/// Validates a top-level record schema, returning the first error in the
/// documented order.
pub fn validate_schema(s: &RecordSchema) -> (r: Result<(), SchemaError>)
    ensures
        r == spec_validate(*s),
{
    match validate_fields(&s.fields) {
        Err(e) => Err(e),
        Ok(()) => {
            if matches!(s.layout, LayoutKind::Unit) && s.fields.len() > 0 {
                Err(SchemaError::UnitWithFields)
            } else if !matches!(s.layout, LayoutKind::Unit) && count_eligible(&s.fields) == 0 {
                Err(SchemaError::EmptyRecord)
            } else if count_optional(&s.fields) > 128 {
                Err(SchemaError::TooManyOptionalSlots)
            } else if backends_have_conflict(&s.backends) {
                Err(SchemaError::ConflictingBackends)
            } else if s.backends.len() > 0 && s.identity.is_none() {
                Err(SchemaError::MissingIdentityByte)
            } else if s.backends.len() > 0 && matches!(s.identity, Some(n) if n > 127) {
                Err(SchemaError::IdentityOutOfRange)
            } else {
                Ok(())
            }
        },
    }
}

/// Which kind of message a leading identity byte announces, for a dispatch
/// table shared by full and partial messages: bytes 0 to 127 are full
/// records, bytes 128 to 255 are partials, at an offset of 128 from their
/// record's own identity.
#[derive(Clone, Copy, Debug, PartialEq, Eq, Structural)]
pub enum MessageKind {
    Full,
    Partial,
}

/// Classifies a leading identity byte: the kind of message it announces
/// and the record identity it refers to.
pub fn classify_identity(b: u8) -> (r: (MessageKind, u8))
    ensures
        b <= 127 ==> r == (MessageKind::Full, b),
        b > 127 ==> r == (MessageKind::Partial, (b - 128) as u8),
{
    if b <= 127 {
        (MessageKind::Full, b)
    } else {
        (MessageKind::Partial, b - 128)
    }
}

} // verus!
