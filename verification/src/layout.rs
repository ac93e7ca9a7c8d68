//! The layout calculator: unpadded byte sizes and presence-mask widths.
//!
//! `UNPADDED_SIZE` of a record is the sum of the contributions of its
//! eligible fields: the exact width for fixed-width fields, the declared
//! capacity hint for custom-codec buffers (their real wire length is decided
//! at encode time), and the nested record's own size for nested fields. The
//! partial's size sums what its slots would take if all were written,
//! including each nested partial's mask. Both are capacity hints for buffer
//! pre-reservation; the computed values saturate at the machine's limit.

use vstd::prelude::*;

use crate::derive::{PartialSchema, SlotForm, SlotSpec};
use crate::mask::{mask_width, spec_mask_width};
use crate::schema::{FieldKind, FieldSpec, RecordSchema};

verus! {

/// The unpadded contribution of one field.
pub open spec fn spec_field_size(k: FieldKind) -> nat
    decreases k, 0int,
{
    match k {
        FieldKind::Fixed(w) => w as nat,
        FieldKind::Buffer(h) => h as nat,
        FieldKind::Record(n) => spec_fields_size(n.fields@, 0),
    }
}

/// The summed contributions of the eligible fields `fs[i..]`.
pub open spec fn spec_fields_size(fs: Seq<FieldSpec>, i: int) -> nat
    decreases fs, 1int, fs.len() - i,
{
    if i < 0 || i >= fs.len() {
        0
    } else {
        (if fs[i].skip {
            0nat
        } else {
            spec_field_size(fs[i].kind)
        }) + spec_fields_size(fs, i + 1)
    }
}

/// How many of the slots `sps[j..]` are presence-tracked (not required).
pub open spec fn n_opt_slots(sps: Seq<SlotSpec>, j: int) -> nat
    decreases sps.len() - j,
{
    if j < 0 || j >= sps.len() {
        0
    } else {
        n_opt_slots(sps, j + 1) + (if sps[j].form is Required {
            0nat
        } else {
            1nat
        })
    }
}

/// The unpadded contribution of one slot, were it written: the field's own
/// size for plain slots, the nested mask plus the nested partial's size for
/// a flattened nested slot.
pub open spec fn spec_slot_size(fields: Seq<FieldSpec>, sp: SlotSpec) -> nat
    decreases fields, 2int, 0int,
{
    let idx = sp.index as int;
    if idx >= fields.len() {
        0
    } else {
        match sp.form {
            SlotForm::Required => spec_field_size(fields[idx].kind),
            SlotForm::Optional => spec_field_size(fields[idx].kind),
            SlotForm::Sub(ps) => match fields[idx].kind {
                FieldKind::Record(n) => spec_mask_width(n_opt_slots(ps.slots@, 0))
                    + spec_partial_size(n.fields@, ps.slots@, 0),
                _ => 0,
            },
        }
    }
}

/// The summed contributions of the slots `sps[j..]`.
pub open spec fn spec_partial_size(fields: Seq<FieldSpec>, sps: Seq<SlotSpec>, j: int) -> nat
    decreases fields, 3int, sps.len() - j,
{
    if j < 0 || j >= sps.len() {
        0
    } else {
        spec_slot_size(fields, sps[j]) + spec_partial_size(fields, sps, j + 1)
    }
}

/// Adds two sizes, saturating at the machine limit.
fn sat_add(a: usize, b: usize) -> (r: usize)
    ensures
        r == if a + b <= usize::MAX {
            a + b
        } else {
            usize::MAX as int
        },
{
    if a > usize::MAX - b {
        usize::MAX
    } else {
        a + b
    }
}

/// `min(n, usize::MAX)`, the saturated value a size computation reports.
pub open spec fn sat(n: int) -> int {
    if n <= usize::MAX {
        n
    } else {
        usize::MAX as int
    }
}

/// The unpadded contribution of one field.
fn field_size(k: &FieldKind) -> (r: usize)
    ensures
        r == sat(spec_field_size(*k) as int),
    decreases *k, 0int,
{
    match k {
        FieldKind::Fixed(w) => *w,
        FieldKind::Buffer(h) => *h,
        FieldKind::Record(n) => fields_size(&n.fields),
    }
}

/// The summed contributions of a field list's eligible fields.
fn fields_size(fs: &Vec<FieldSpec>) -> (r: usize)
    ensures
        r == sat(spec_fields_size(fs@, 0) as int),
    decreases *fs, 1int,
{
    let mut acc: usize = 0;
    let n = fs.len();
    for i in 0..n
        invariant
            n == fs@.len(),
            acc <= sat(spec_fields_size(fs@, 0) as int),
            sat(spec_fields_size(fs@, 0) as int) == sat(acc + spec_fields_size(fs@, i as int)),
        decreases *fs, 2int, n - i,
    {
        if !fs[i].skip {
            acc = sat_add(acc, field_size(&fs[i].kind));
        }
    }
    acc
}

/// `UNPADDED_SIZE` of the full record encoding: the summed contributions of
/// the record's eligible fields (the identity byte is not included).
pub fn unpadded_size(s: &RecordSchema) -> (r: usize)
    ensures
        r == sat(spec_fields_size(s.fields@, 0) as int),
{
    fields_size(&s.fields)
}

/// How many slots of a partial schema are presence-tracked.
pub fn count_opt_slots(sps: &Vec<SlotSpec>) -> (r: usize)
    ensures
        r == n_opt_slots(sps@, 0),
{
    let mut r: usize = 0;
    let n = sps.len();
    for j in 0..n
        invariant
            n == sps@.len(),
            r <= j,
            n_opt_slots(sps@, 0) == r + n_opt_slots(sps@, j as int),
    {
        if !matches!(sps[j].form, SlotForm::Required) {
            r += 1;
        }
    }
    r
}

/// The unpadded contribution of one slot.
fn slot_size(fields: &Vec<FieldSpec>, sp: &SlotSpec) -> (r: usize)
    ensures
        r == sat(spec_slot_size(fields@, *sp) as int),
    decreases *fields, 2int,
{
    if sp.index >= fields.len() {
        return 0;
    }
    match &sp.form {
        SlotForm::Required => field_size(&fields[sp.index].kind),
        SlotForm::Optional => field_size(&fields[sp.index].kind),
        SlotForm::Sub(ps) => match &fields[sp.index].kind {
            FieldKind::Record(n) => {
                let w = mask_width(count_opt_slots(&ps.slots));
                sat_add(w, partial_fields_size(&n.fields, &ps.slots))
            },
            _ => 0,
        },
    }
}

/// The summed contributions of a partial schema's slots.
fn partial_fields_size(fields: &Vec<FieldSpec>, sps: &Vec<SlotSpec>) -> (r: usize)
    ensures
        r == sat(spec_partial_size(fields@, sps@, 0) as int),
    decreases *fields, 3int,
{
    let mut acc: usize = 0;
    let n = sps.len();
    for j in 0..n
        invariant
            n == sps@.len(),
            acc <= sat(spec_partial_size(fields@, sps@, 0) as int),
            sat(spec_partial_size(fields@, sps@, 0) as int) == sat(
                acc + spec_partial_size(fields@, sps@, j as int),
            ),
        decreases *fields, 4int, n - j,
    {
        acc = sat_add(acc, slot_size(fields, &sps[j]));
    }
    acc
}

/// `UNPADDED_SIZE` of the partial encoding: what the slots would take if
/// every one were written (the identity byte and the partial's own mask are
/// not included). A capacity hint only: optional slots are conditionally
/// written and buffers have runtime-variable length.
pub fn partial_unpadded_size(s: &RecordSchema, ps: &PartialSchema) -> (r: usize)
    ensures
        r == sat(spec_partial_size(s.fields@, ps.slots@, 0) as int),
{
    partial_fields_size(&s.fields, &ps.slots)
}

} // verus!
