//! The partial-type deriver: computes the schema of a record's partial
//! companion type.
//!
//! Every eligible field becomes one slot, in declaration order: a required
//! slot for required fields, a flattened nested partial for fields whose
//! type is itself a record, and a presence-tracked optional slot otherwise.
//! Skipped fields are dropped entirely; nothing in the partial can
//! reconstruct them.

use vstd::prelude::*;

use crate::names::{
    pascal_of, partial_type_name, positional_flag_name, spec_decimal, to_pascal,
};
use crate::schema::{
    eligible, n_eligible, spec_partial_identity, spec_validate, spec_validate_fields,
    spec_validate_sub, wf_sub, FieldKind, FieldSpec, LayoutKind, RecordSchema, SchemaError,
};
use crate::schema::lemma_validate_fields_ok;
use crate::schema::validate_schema;

verus! {

/// What a slot of the partial type is.
#[derive(Debug)]
pub enum SlotForm {
    /// Always present, same declared type as the field; never contributes to
    /// modification state.
    Required,
    /// Presence-tracked: holds a value or is empty, with one presence bit.
    Optional,
    /// A field whose type has a partial form of its own; the slot is aliased
    /// to that nested partial schema (flattening).
    Sub(Box<PartialSchema>),
}

/// One slot of the partial type. `index` is the position of the originating
/// field in the record schema; `flag` is the derived presence-flag
/// identifier, present exactly on non-required slots.
#[derive(Debug)]
pub struct SlotSpec {
    pub name: String,
    pub flag: Option<String>,
    pub index: usize,
    pub form: SlotForm,
}

/// The derived schema of the partial companion type.
#[derive(Debug)]
pub struct PartialSchema {
    pub name: String,
    pub identity: Option<u8>,
    pub layout: LayoutKind,
    pub slots: Vec<SlotSpec>,
    pub capabilities: Vec<String>,
}

/// The derived presence-flag identifier of a non-required slot: the Pascal
/// case of the field's name for named records, the fixed prefix plus the
/// field index for positional records.
pub open spec fn slot_flag_ok(
    layout: LayoutKind,
    f: FieldSpec,
    idx: int,
    flag: Option<String>,
) -> bool {
    match layout {
        LayoutKind::Named => flag matches Some(g) && g@ == pascal_of(f.name@),
        LayoutKind::Positional => flag matches Some(g) && g@ == seq!['F'] + spec_decimal(
            idx as nat,
        ),
        LayoutKind::Unit => false,
    }
}

/// One slot agrees with the field it derives from.
pub open spec fn slot_matches(s: RecordSchema, sp: SlotSpec) -> bool
    decreases s, 0int,
{
    let idx = sp.index as int;
    &&& idx < s.fields@.len()
    &&& eligible(s.fields@[idx])
    &&& sp.name@ == s.fields@[idx].name@
    &&& if s.fields@[idx].required {
        sp.form is Required && sp.flag is None
    } else {
        &&& slot_flag_ok(s.layout, s.fields@[idx], idx, sp.flag)
        &&& match s.fields@[idx].kind {
            FieldKind::Record(n) => sp.form matches SlotForm::Sub(ps) && derives_to(*n, *ps),
            _ => sp.form is Optional,
        }
    }
}

/// The partial schema `ps` is exactly what deriving `s` produces: the name
/// carries the `Opt` suffix, the identity byte sits 128 above the record's,
/// layout and capabilities carry over, and the slots are the eligible fields
/// in declaration order.
pub open spec fn derives_to(s: RecordSchema, ps: PartialSchema) -> bool
    decreases s, 1int,
{
    &&& ps.name@ == s.name@ + seq!['O', 'p', 't']
    &&& ps.identity == spec_partial_identity(s)
    &&& ps.layout == s.layout
    &&& ps.capabilities@ == s.capabilities@
    &&& ps.slots@.len() == n_eligible(s.fields@, s.fields@.len() as int)
    &&& forall|j: int| 0 <= j < ps.slots@.len() ==> slot_matches(s, #[trigger] ps.slots@[j])
    &&& forall|j1: int, j2: int|
        0 <= j1 < j2 < ps.slots@.len() ==> ps.slots@[j1].index < ps.slots@[j2].index
    &&& forall|i: int|
        0 <= i < s.fields@.len() && eligible(#[trigger] s.fields@[i]) ==> exists|j: int|
            0 <= j < ps.slots@.len() && (#[trigger] ps.slots@[j]).index == i
}

/// Derives the partial companion schema of a record schema, validating the
/// record schema first.
pub fn derive_partial(s: &RecordSchema) -> (r: Result<PartialSchema, SchemaError>)
    ensures
        match r {
            Ok(ps) => spec_validate(*s) is Ok && derives_to(*s, ps),
            Err(e) => spec_validate(*s) == Err::<(), SchemaError>(e),
        },
{
    match validate_schema(s) {
        Err(e) => Err(e),
        Ok(()) => Ok(derive_validated(s)),
    }
}

/// Derives the partial schema of a schema whose fields have already
/// validated.
fn derive_validated(s: &RecordSchema) -> (ps: PartialSchema)
    requires
        spec_validate_fields(s.fields@, 0) is Ok,
        s.layout is Unit ==> s.fields@.len() == 0,
    ensures
        derives_to(*s, ps),
    decreases *s,
{
    let name = partial_type_name(&s.name);
    let identity: Option<u8> = match s.identity {
        Some(n) => if n <= 127 {
            Some(n + 128)
        } else {
            None
        },
        None => None,
    };

    let mut capabilities: Vec<String> = Vec::new();
    let n_caps = s.capabilities.len();
    for c in 0..n_caps
        invariant
            n_caps == s.capabilities@.len(),
            capabilities@ =~= s.capabilities@.take(c as int),
    {
        capabilities.push(s.capabilities[c].clone());
        proof {
            assert(capabilities@ =~= s.capabilities@.take(c as int + 1));
        }
    }
    proof {
        assert(capabilities@ =~= s.capabilities@);
    }

    let mut slots: Vec<SlotSpec> = Vec::new();
    let n = s.fields.len();
    for i in 0..n
        invariant
            n == s.fields@.len(),
            spec_validate_fields(s.fields@, 0) is Ok,
            s.layout is Unit ==> s.fields@.len() == 0,
            slots@.len() == n_eligible(s.fields@, i as int),
            forall|j: int|
                0 <= j < slots@.len() ==> slot_matches(*s, #[trigger] slots@[j])
                    && slots@[j].index < i,
            forall|j1: int, j2: int|
                0 <= j1 < j2 < slots@.len() ==> slots@[j1].index < slots@[j2].index,
            forall|k: int|
                0 <= k < i && eligible(#[trigger] s.fields@[k]) ==> exists|j: int|
                    0 <= j < slots@.len() && (#[trigger] slots@[j]).index == k,
        decreases *s, 2int, n - i,
    {
        let f = &s.fields[i];
        proof {
            lemma_validate_fields_ok(s.fields@, i as int);
        }
        if !f.skip {
            let flag: Option<String> = if f.required {
                None
            } else {
                match s.layout {
                    LayoutKind::Named => Some(to_pascal(f.name.as_str())),
                    LayoutKind::Positional => Some(positional_flag_name(i)),
                    LayoutKind::Unit => vstd::pervasive::unreached(),
                }
            };
            let form: SlotForm = if f.required {
                SlotForm::Required
            } else {
                match &f.kind {
                    FieldKind::Record(nested) => SlotForm::Sub(
                        Box::new(derive_validated(nested)),
                    ),
                    _ => SlotForm::Optional,
                }
            };
            let ghost old_slots = slots@;
            slots.push(SlotSpec { name: f.name.clone(), flag, index: i, form });
            proof {
                assert(slot_matches(*s, slots@[old_slots.len() as int]));
                assert forall|k: int|
                    0 <= k < i + 1 && eligible(#[trigger] s.fields@[k]) implies exists|j: int|
                    0 <= j < slots@.len() && (#[trigger] slots@[j]).index == k by {
                    if k == i {
                        assert(slots@[old_slots.len() as int].index == k);
                    } else {
                        let j = choose|j: int|
                            0 <= j < old_slots.len() && (#[trigger] old_slots[j]).index == k;
                        assert(slots@[j].index == k);
                    }
                }
            }
        }
    }
    PartialSchema { name, identity, layout: s.layout, slots, capabilities }
}

/// Identity offset law, at derivation time: deriving a record schema whose
/// identity byte is `n` (0 to 127) gives a partial schema whose identity
/// byte is exactly `n + 128`.
pub proof fn lemma_identity_offset(s: RecordSchema, ps: PartialSchema)
    requires
        derives_to(s, ps),
        s.identity matches Some(n) && n <= 127,
    ensures
        ps.identity matches Some(p) && p == s.identity->0 + 128,
{
}

} // verus!
