//! The wire codec, as mathematics: the byte strings the two encodings
//! produce, the decoders that read them back, and the round-trip laws.
//!
//! Full encoding: `[identity]` followed by every eligible field's payload in
//! declaration order. Partial encoding: `[identity + 128]`, the little-endian
//! presence mask (unless the record is a unit record, which has nothing to
//! track), then the payloads: required slots unconditionally, optional slots
//! when their bit is set, nested partials (mask-prefixed, no identity byte)
//! when modified — all interleaved in declaration order. A fixed-width value
//! is its bit pattern; a custom-codec buffer carries a two-byte little-endian
//! length prefix; a nested record's payload is flattened in without its
//! identity byte.
//!
//! The executable functions live in `wire`; their contracts are stated over
//! the functions here.

use vstd::prelude::*;

use crate::derive::{PartialSchema, SlotForm, SlotSpec};
use crate::layout::n_opt_slots;
use crate::mask::{lemma_mask_bit, mask_bit, spec_mask, spec_mask_width};
use crate::merge::{slot_modified, spec_modified};
use crate::schema::{FieldKind, FieldSpec, RecordSchema, spec_partial_identity};
use crate::values::{default_partial, default_value, SlotM, ValueM};

verus! {

/// A length as a two-byte little-endian prefix.
pub open spec fn le16(n: nat) -> Seq<u8> {
    seq![(n % 256) as u8, ((n / 256) % 256) as u8]
}

/// The payload bytes of one field value.
pub open spec fn enc_value(k: FieldKind, v: ValueM) -> Seq<u8>
    decreases k, 0int, 0int,
{
    match k {
        FieldKind::Fixed(_) => match v {
            ValueM::Fixed(b) => b,
            _ => Seq::empty(),
        },
        FieldKind::Buffer(_) => match v {
            ValueM::Buf(b) => le16(b.len()) + b,
            _ => Seq::empty(),
        },
        FieldKind::Record(n) => match v {
            ValueM::Rec(fs) => enc_fields(n.fields@, fs, 0),
            _ => Seq::empty(),
        },
    }
}

/// The concatenated payloads of the eligible fields `fs[i..]`.
pub open spec fn enc_fields(fs: Seq<FieldSpec>, vals: Seq<ValueM>, i: int) -> Seq<u8>
    decreases fs, 1int, fs.len() - i,
{
    if i < 0 || i >= fs.len() {
        Seq::empty()
    } else {
        (if fs[i].skip {
            Seq::empty()
        } else {
            enc_value(fs[i].kind, vals[i])
        }) + enc_fields(fs, vals, i + 1)
    }
}

/// The presence flags of the non-required slots `sps[j..]`, in order: an
/// optional slot's flag is set when it holds a value, a nested slot's when
/// the nested partial is modified. Required slots have no flag.
pub open spec fn opt_flags(sps: Seq<SlotSpec>, slots: Seq<SlotM>, j: int) -> Seq<bool>
    decreases sps.len() - j,
{
    if j < 0 || j >= sps.len() {
        Seq::empty()
    } else if sps[j].form is Required {
        opt_flags(sps, slots, j + 1)
    } else {
        seq![slot_modified(slots[j])] + opt_flags(sps, slots, j + 1)
    }
}

/// The payload bytes of one slot: a required slot is always written, an
/// optional slot only when present, a nested slot (its own mask followed by
/// its payloads, no identity byte) only when modified.
pub open spec fn enc_slot(fields: Seq<FieldSpec>, sp: SlotSpec, sl: SlotM) -> Seq<u8>
    decreases fields, 2int, 1int,
{
    let idx = sp.index as int;
    if idx >= fields.len() {
        Seq::empty()
    } else {
        let k = fields[idx].kind;
        match sp.form {
            SlotForm::Required => match sl {
                SlotM::Req(v) => enc_value(k, v),
                _ => Seq::empty(),
            },
            SlotForm::Optional => match sl {
                SlotM::Opt(o) => match o {
                    Some(v) => enc_value(k, v),
                    None => Seq::empty(),
                },
                _ => Seq::empty(),
            },
            SlotForm::Sub(ps) => match sl {
                SlotM::Sub(ss) => if spec_modified(ss) {
                    enc_partial_body(fields, idx, *ps, ss)
                } else {
                    Seq::empty()
                },
                _ => Seq::empty(),
            },
        }
    }
}

/// The concatenated payloads of the slots `sps[j..]`.
pub open spec fn enc_slots(fields: Seq<FieldSpec>, sps: Seq<SlotSpec>, slots: Seq<SlotM>, j: int) -> Seq<u8>
    decreases fields, 3int, sps.len() - j,
{
    if j < 0 || j >= sps.len() {
        Seq::empty()
    } else {
        enc_slot(fields, sps[j], slots[j]) + enc_slots(fields, sps, slots, j + 1)
    }
}

/// The mask-prefixed body of a nested partial standing at field `idx` of
/// `fields`.
pub open spec fn enc_partial_body(fields: Seq<FieldSpec>, idx: int, ps: PartialSchema, slots: Seq<SlotM>) -> Seq<u8>
    decreases fields, 2int, 0int,
{
    if 0 <= idx < fields.len() {
        match fields[idx].kind {
            FieldKind::Record(n) => enc_partial_top(n.fields@, ps, slots),
            _ => Seq::empty(),
        }
    } else {
        Seq::empty()
    }
}

/// The mask-prefixed body of a partial: the presence mask in little-endian
/// bytes, then the slot payloads.
pub open spec fn enc_partial_top(fields: Seq<FieldSpec>, ps: PartialSchema, slots: Seq<SlotM>) -> Seq<u8>
    decreases fields, 4int, 0int,
{
    spec_mask(opt_flags(ps.slots@, slots, 0), spec_mask_width(n_opt_slots(ps.slots@, 0)))
        + enc_slots(fields, ps.slots@, slots, 0)
}

/// The full wire message of a record instance: the identity byte, then the
/// field payloads.
pub open spec fn spec_full_msg(s: RecordSchema, rv: Seq<ValueM>) -> Seq<u8> {
    match s.identity {
        Some(id) => seq![id] + enc_fields(s.fields@, rv, 0),
        None => Seq::empty(),
    }
}

/// The wire message of a partial instance: the partial identity byte, then
/// (unless the record is a unit record) the mask and the slot payloads.
pub open spec fn spec_partial_msg(s: RecordSchema, ps: PartialSchema, pv: Seq<SlotM>) -> Seq<u8> {
    match spec_partial_identity(s) {
        Some(pid) => seq![pid] + if s.layout is Unit {
            Seq::empty()
        } else {
            enc_partial_top(s.fields@, ps, pv)
        },
        None => Seq::empty(),
    }
}

/// Decodes one field value at `pos`, returning the value and the position
/// after it.
pub open spec fn dec_value(k: FieldKind, bytes: Seq<u8>, pos: int) -> Option<(ValueM, int)>
    decreases k, 0int, 0int,
{
    match k {
        FieldKind::Fixed(w) => if 0 <= pos && pos + w <= bytes.len() {
            Some((ValueM::Fixed(bytes.subrange(pos, pos + w)), pos + w))
        } else {
            None
        },
        FieldKind::Buffer(_) => if 0 <= pos && pos + 2 <= bytes.len() {
            let n = bytes[pos] + 256 * bytes[pos + 1];
            if pos + 2 + n <= bytes.len() {
                Some((ValueM::Buf(bytes.subrange(pos + 2, pos + 2 + n)), pos + 2 + n))
            } else {
                None
            }
        } else {
            None
        },
        FieldKind::Record(n) => match dec_fields(n.fields@, bytes, pos, 0) {
            Some((vs, p)) => Some((ValueM::Rec(vs), p)),
            None => None,
        },
    }
}

/// Decodes the fields `fs[i..]` at `pos`: eligible fields are read in
/// order, skipped fields take their default value (they are not on the
/// wire and cannot be reconstructed).
pub open spec fn dec_fields(fs: Seq<FieldSpec>, bytes: Seq<u8>, pos: int, i: int) -> Option<
    (Seq<ValueM>, int),
>
    decreases fs, 1int, fs.len() - i,
{
    if i < 0 || i >= fs.len() {
        Some((Seq::empty(), pos))
    } else if fs[i].skip {
        match dec_fields(fs, bytes, pos, i + 1) {
            Some((vs, p)) => Some((seq![default_value(fs[i].kind)] + vs, p)),
            None => None,
        }
    } else {
        match dec_value(fs[i].kind, bytes, pos) {
            Some((v, p1)) => match dec_fields(fs, bytes, p1, i + 1) {
                Some((vs, p2)) => Some((seq![v] + vs, p2)),
                None => None,
            },
            None => None,
        }
    }
}

/// Decodes the slots `sps[j..]` at `pos`, consuming presence bits from
/// `mask` starting at `bit`: required slots are always read, optional slots
/// only when their bit is set (and are empty otherwise), nested slots
/// delegate to the nested mask-prefixed decoder when their bit is set and
/// take the default (Clean) nested partial otherwise.
pub open spec fn dec_slots(
    fields: Seq<FieldSpec>,
    sps: Seq<SlotSpec>,
    bytes: Seq<u8>,
    mask: Seq<u8>,
    pos: int,
    j: int,
    bit: int,
) -> Option<(Seq<SlotM>, int)>
    decreases fields, 3int, sps.len() - j,
{
    if j < 0 || j >= sps.len() {
        Some((Seq::empty(), pos))
    } else {
        let idx = sps[j].index as int;
        if idx >= fields.len() {
            None
        } else {
            let k = fields[idx].kind;
            match sps[j].form {
                SlotForm::Required => match dec_value(k, bytes, pos) {
                    Some((v, p)) => match dec_slots(fields, sps, bytes, mask, p, j + 1, bit) {
                        Some((ss, p2)) => Some((seq![SlotM::Req(v)] + ss, p2)),
                        None => None,
                    },
                    None => None,
                },
                SlotForm::Optional => if mask_bit(mask, bit) {
                    match dec_value(k, bytes, pos) {
                        Some((v, p)) => match dec_slots(
                            fields,
                            sps,
                            bytes,
                            mask,
                            p,
                            j + 1,
                            bit + 1,
                        ) {
                            Some((ss, p2)) => Some((seq![SlotM::Opt(Some(v))] + ss, p2)),
                            None => None,
                        },
                        None => None,
                    }
                } else {
                    match dec_slots(fields, sps, bytes, mask, pos, j + 1, bit + 1) {
                        Some((ss, p2)) => Some((seq![SlotM::Opt(None)] + ss, p2)),
                        None => None,
                    }
                },
                SlotForm::Sub(ps) => match k {
                    FieldKind::Record(n) => if mask_bit(mask, bit) {
                        match dec_partial_top(*n, *ps, bytes, pos) {
                            Some((ss, p)) => match dec_slots(
                                fields,
                                sps,
                                bytes,
                                mask,
                                p,
                                j + 1,
                                bit + 1,
                            ) {
                                Some((rest, p2)) => Some((seq![SlotM::Sub(ss)] + rest, p2)),
                                None => None,
                            },
                            None => None,
                        }
                    } else {
                        match dec_slots(fields, sps, bytes, mask, pos, j + 1, bit + 1) {
                            Some((rest, p2)) => Some(
                                (seq![SlotM::Sub(default_partial(*n, *ps))] + rest, p2),
                            ),
                            None => None,
                        }
                    },
                    _ => None,
                },
            }
        }
    }
}

/// Decodes a mask-prefixed partial body at `pos`: the mask bytes, then the
/// slots.
pub open spec fn dec_partial_top(s: RecordSchema, ps: PartialSchema, bytes: Seq<u8>, pos: int) -> Option<(Seq<SlotM>, int)>
    decreases s, 4int, 0int,
{
    let w = spec_mask_width(n_opt_slots(ps.slots@, 0));
    if 0 <= pos && pos + w <= bytes.len() {
        dec_slots(s.fields@, ps.slots@, bytes, bytes.subrange(pos, pos + w), pos + w, 0, 0)
    } else {
        None
    }
}

/// Decodes a full record message: the identity byte must match, then the
/// fields are read; trailing bytes are ignored.
pub open spec fn spec_dec_record_msg(s: RecordSchema, bytes: Seq<u8>) -> Option<Seq<ValueM>> {
    match s.identity {
        Some(id) => if bytes.len() >= 1 && bytes[0] == id {
            match dec_fields(s.fields@, bytes, 1, 0) {
                Some((vs, _)) => Some(vs),
                None => None,
            }
        } else {
            None
        },
        None => None,
    }
}

/// Decodes a partial message: the partial identity byte must match; a unit
/// record carries nothing further, otherwise the mask and the slots follow;
/// trailing bytes are ignored.
pub open spec fn spec_dec_partial_msg(s: RecordSchema, ps: PartialSchema, bytes: Seq<u8>) -> Option<Seq<SlotM>> {
    match spec_partial_identity(s) {
        Some(pid) => if bytes.len() >= 1 && bytes[0] == pid {
            if s.layout is Unit {
                Some(Seq::empty())
            } else {
                match dec_partial_top(s, ps, bytes, 1) {
                    Some((ss, _)) => Some(ss),
                    None => None,
                }
            }
        } else {
            None
        },
        None => None,
    }
}

/// The presence flags of `sps[j..]` are one per non-required slot.
pub proof fn lemma_opt_flags_len(sps: Seq<SlotSpec>, slots: Seq<SlotM>, j: int)
    ensures
        opt_flags(sps, slots, j).len() == n_opt_slots(sps, j),
    decreases sps.len() - j,
{
    if 0 <= j < sps.len() {
        lemma_opt_flags_len(sps, slots, j + 1);
    }
}

/// Identity offset law, on the wire: for every record with identity byte
/// `n` (0 to 127), the partial's wire message opens with `n + 128`, while
/// the full message opens with `n` itself.
pub proof fn lemma_identity_offset_msg(s: RecordSchema, ps: PartialSchema, rv: Seq<ValueM>, pv: Seq<SlotM>)
    requires
        s.identity matches Some(n) && n <= 127,
    ensures
        spec_full_msg(s, rv).len() >= 1,
        spec_full_msg(s, rv)[0] == s.identity->0,
        spec_partial_msg(s, ps, pv).len() >= 1,
        spec_partial_msg(s, ps, pv)[0] == s.identity->0 + 128,
{
}

/// Bit order law: in a non-unit partial message, bit `q` of the presence
/// mask (the bytes right after the identity byte) is set iff the `q`-th
/// non-required slot, in declaration order, carries a change — an optional
/// slot holding a value, or a modified nested partial. Skipped fields have
/// no slot and required slots have no bit.
pub proof fn lemma_bit_order(s: RecordSchema, ps: PartialSchema, pv: Seq<SlotM>, q: int)
    requires
        s.identity matches Some(n) && n <= 127,
        !(s.layout is Unit),
        n_opt_slots(ps.slots@, 0) <= 128,
        0 <= q < opt_flags(ps.slots@, pv, 0).len(),
    ensures
        ({
            let w = spec_mask_width(n_opt_slots(ps.slots@, 0));
            mask_bit(spec_partial_msg(s, ps, pv).subrange(1, 1 + w as int), q) == opt_flags(
                ps.slots@,
                pv,
                0,
            )[q]
        }),
{
    let flags = opt_flags(ps.slots@, pv, 0);
    let n_opt = n_opt_slots(ps.slots@, 0);
    let w = spec_mask_width(n_opt);
    lemma_opt_flags_len(ps.slots@, pv, 0);
    let msg = spec_partial_msg(s, ps, pv);
    assert(msg.subrange(1, 1 + w as int) =~= spec_mask(flags, w));
    lemma_mask_bit(flags, w, q);
}

} // verus!
