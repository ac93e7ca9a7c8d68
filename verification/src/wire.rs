//! The executable wire codec: serializers and deserializers for the full
//! and partial encodings, specified against the functions in `codec`.
//!
//! The serializers require well-formed instances and produce exactly the
//! specified byte strings; the deserializers accept any byte string and
//! agree with the specified decoders on success, failure, value and end
//! position. Together with the round-trip laws this gives
//! `deserialize(serialize(x))` back `x` for every skip-free schema.

use vstd::prelude::*;

use crate::codec::{
    dec_fields, dec_partial_top, dec_slots, dec_value, enc_fields, enc_partial_top, enc_slot,
    enc_slots, enc_value, lemma_opt_flags_len, opt_flags, spec_dec_partial_msg,
    spec_dec_record_msg, spec_full_msg, spec_partial_msg,
};
use crate::derive::{PartialSchema, SlotForm, SlotSpec};
use crate::layout::{count_opt_slots, n_opt_slots, partial_unpadded_size, unpadded_size};
use crate::mask::{build_mask, get_bit, mask_bit, mask_width};
use crate::merge::{slot_modified, spec_modified};
use crate::schema::{spec_partial_identity, FieldKind, RecordSchema};
use crate::values::{
    dv_slots, dv_values, make_default_partial, make_default_value, wf_partial, wf_record, wf_slot,
    wf_value, Partial, Record, Slot, Value,
};

verus! {

/// Why a decode failed.
#[derive(Clone, Copy, Debug, PartialEq, Eq, Structural)]
pub enum CodecError {
    /// The buffer is shorter than the declared layout requires (or a slot
    /// referenced by a presence bit could not be decoded from it).
    Truncated,
    /// The leading byte is not the identity byte this schema's messages
    /// carry.
    UnexpectedIdentity,
}

/// Appends a copy of `src` to `out`.
fn write_bytes(out: &mut Vec<u8>, src: &Vec<u8>)
    ensures
        final(out)@ == old(out)@ + src@,
{
    let n = src.len();
    for i in 0..n
        invariant
            n == src@.len(),
            out@ =~= old(out)@ + src@.take(i as int),
    {
        out.push(src[i]);
        proof {
            assert(out@ =~= old(out)@ + src@.take(i as int + 1));
        }
    }
    proof {
        assert(out@ =~= old(out)@ + src@);
    }
}

/// Reads `n` bytes at `pos` as an owned vector.
fn read_bytes(bytes: &[u8], pos: usize, n: usize) -> (r: Vec<u8>)
    requires
        pos + n <= bytes@.len(),
    ensures
        r@ == bytes@.subrange(pos as int, pos + n),
{
    let total = bytes.len();
    let mut r: Vec<u8> = Vec::with_capacity(n);
    for i in 0..n
        invariant
            total == bytes@.len(),
            pos + n <= bytes@.len(),
            r@ =~= bytes@.subrange(pos as int, pos + i),
    {
        r.push(bytes[pos + i]);
        proof {
            assert(r@ =~= bytes@.subrange(pos as int, pos + i + 1));
        }
    }
    r
}

/// Writes one field value's payload.
fn write_value(k: &FieldKind, v: &Value, out: &mut Vec<u8>)
    requires
        wf_value(*k, v.dv()),
    ensures
        final(out)@ == old(out)@ + enc_value(*k, v.dv()),
    decreases *k, 0int,
{
    match (k, v) {
        (FieldKind::Fixed(_), Value::Fixed(b)) => {
            write_bytes(out, b);
        },
        (FieldKind::Buffer(_), Value::Buf(b)) => {
            let len = b.len();
            out.push((len % 256) as u8);
            out.push((len / 256 % 256) as u8);
            write_bytes(out, b);
            proof {
                assert(out@ =~= old(out)@ + enc_value(*k, v.dv()));
            }
        },
        (FieldKind::Record(n), Value::Rec(rec)) => {
            write_fields(n, &rec.fields, out);
        },
        _ => {
            proof {
                assert(false);
            }
        },
    }
}

/// Writes the payloads of a record's eligible fields, in declaration
/// order.
fn write_fields(s: &RecordSchema, vals: &Vec<Value>, out: &mut Vec<u8>)
    requires
        wf_record(*s, dv_values(vals@)),
    ensures
        final(out)@ == old(out)@ + enc_fields(s.fields@, dv_values(vals@), 0),
    decreases *s, 1int,
{
    let ghost vm = dv_values(vals@);
    let n = s.fields.len();
    for i in 0..n
        invariant
            n == s.fields@.len(),
            vm == dv_values(vals@),
            wf_record(*s, vm),
            old(out)@ + enc_fields(s.fields@, vm, 0) =~= out@ + enc_fields(s.fields@, vm, i as int),
        decreases *s, 0int, n - i,
    {
        let ghost before = out@;
        let f = &s.fields[i];
        if !f.skip {
            write_value(&f.kind, &vals[i], out);
            proof {
                assert(vm[i as int] == vals@[i as int].dv());
                assert(before + enc_fields(s.fields@, vm, i as int) =~= out@ + enc_fields(
                    s.fields@,
                    vm,
                    i as int + 1,
                ));
            }
        }
    }
    proof {
        assert(old(out)@ + enc_fields(s.fields@, vm, 0) =~= out@);
    }
}

/// The presence flags of a partial instance's non-required slots, in slot
/// order.
fn collect_flags(sps: &Vec<SlotSpec>, slots: &Vec<Slot>) -> (r: Vec<bool>)
    requires
        slots@.len() == sps@.len(),
    ensures
        r@ == opt_flags(sps@, dv_slots(slots@), 0),
{
    let ghost pv = dv_slots(slots@);
    let mut r: Vec<bool> = Vec::new();
    let n = sps.len();
    for j in 0..n
        invariant
            n == sps@.len(),
            slots@.len() == sps@.len(),
            pv == dv_slots(slots@),
            opt_flags(sps@, pv, 0) =~= r@ + opt_flags(sps@, pv, j as int),
    {
        let ghost before = r@;
        if !matches!(&sps[j].form, SlotForm::Required) {
            let flag = match &slots[j] {
                Slot::Req(_) => false,
                Slot::Opt(o) => o.is_some(),
                Slot::Sub(p) => p.is_modified(),
            };
            proof {
                assert(flag == slot_modified(pv[j as int]));
            }
            r.push(flag);
        }
        proof {
            assert(opt_flags(sps@, pv, 0) =~= r@ + opt_flags(sps@, pv, j as int + 1));
        }
    }
    proof {
        assert(opt_flags(sps@, pv, 0) =~= r@);
    }
    r
}

/// Writes a partial's mask-prefixed body: the presence mask, then the slot
/// payloads.
fn write_partial_top(s: &RecordSchema, ps: &PartialSchema, p: &Vec<Slot>, out: &mut Vec<u8>)
    requires
        wf_partial(*s, *ps, dv_slots(p@)),
        n_opt_slots(ps.slots@, 0) <= 128,
    ensures
        final(out)@ == old(out)@ + enc_partial_top(s.fields@, *ps, dv_slots(p@)),
    decreases *s, 4int,
{
    let flags = collect_flags(&ps.slots, p);
    let w = mask_width(count_opt_slots(&ps.slots));
    proof {
        lemma_opt_flags_len(ps.slots@, dv_slots(p@), 0);
    }
    let mask = build_mask(&flags, w);
    write_bytes(out, &mask);
    write_slots(s, ps, p, out);
    proof {
        assert(out@ =~= old(out)@ + enc_partial_top(s.fields@, *ps, dv_slots(p@)));
    }
}

/// Writes the slot payloads of a partial, in slot order: required slots
/// always, optional slots when present, nested partials when modified.
fn write_slots(s: &RecordSchema, ps: &PartialSchema, p: &Vec<Slot>, out: &mut Vec<u8>)
    requires
        wf_partial(*s, *ps, dv_slots(p@)),
    ensures
        final(out)@ == old(out)@ + enc_slots(s.fields@, ps.slots@, dv_slots(p@), 0),
    decreases *s, 3int,
{
    let ghost pv = dv_slots(p@);
    let n = ps.slots.len();
    for j in 0..n
        invariant
            n == ps.slots@.len(),
            pv == dv_slots(p@),
            wf_partial(*s, *ps, pv),
            old(out)@ + enc_slots(s.fields@, ps.slots@, pv, 0) =~= out@ + enc_slots(
                s.fields@,
                ps.slots@,
                pv,
                j as int,
            ),
        decreases *s, 2int, n - j,
    {
        let ghost before = out@;
        let sp = &ps.slots[j];
        let sl = &p[j];
        proof {
            assert(wf_slot(*s, ps.slots@[j as int], pv[j as int]));
        }
        let idx = sp.index;
        match (&sp.form, sl) {
            (SlotForm::Required, Slot::Req(v)) => {
                write_value(&s.fields[idx].kind, v, out);
            },
            (SlotForm::Optional, Slot::Opt(o)) => {
                match o {
                    Some(v) => {
                        write_value(&s.fields[idx].kind, v, out);
                    },
                    None => {},
                }
            },
            (SlotForm::Sub(nested), Slot::Sub(subp)) => {
                match &s.fields[idx].kind {
                    FieldKind::Record(n2) => {
                        if subp.is_modified() {
                            write_partial_top(n2, nested, &subp.slots, out);
                        }
                    },
                    _ => {
                        proof {
                            assert(false);
                        }
                    },
                }
            },
            _ => {
                proof {
                    assert(false);
                }
            },
        }
        proof {
            assert(out@ =~= before + enc_slot(s.fields@, ps.slots@[j as int], pv[j as int]));
            assert(before + enc_slots(s.fields@, ps.slots@, pv, j as int) =~= out@ + enc_slots(
                s.fields@,
                ps.slots@,
                pv,
                j as int + 1,
            ));
        }
    }
    proof {
        assert(old(out)@ + enc_slots(s.fields@, ps.slots@, pv, 0) =~= out@);
    }
}

/// Serializes a record instance into its full wire message: the identity
/// byte, then every eligible field's payload in declaration order.
pub fn serialize_record(s: &RecordSchema, r: &Record) -> (out: Vec<u8>)
    requires
        s.identity is Some,
        wf_record(*s, r.dv()),
    ensures
        out@ == spec_full_msg(*s, r.dv()),
{
    let cap = unpadded_size(s);
    let mut out: Vec<u8> = Vec::with_capacity(if cap < usize::MAX {
        cap + 1
    } else {
        cap
    });
    let id = match s.identity {
        Some(id) => id,
        None => vstd::pervasive::unreached(),
    };
    out.push(id);
    write_fields(s, &r.fields, &mut out);
    proof {
        assert(out@ =~= spec_full_msg(*s, r.dv()));
    }
    out
}

/// Serializes a partial instance into its wire message: the partial
/// identity byte, then (unless the record is a unit record) the presence
/// mask and the slot payloads.
pub fn serialize_partial(s: &RecordSchema, ps: &PartialSchema, p: &Partial) -> (out: Vec<u8>)
    requires
        spec_partial_identity(*s) is Some,
        wf_partial(*s, *ps, p.dv()),
        n_opt_slots(ps.slots@, 0) <= 128,
    ensures
        out@ == spec_partial_msg(*s, *ps, p.dv()),
{
    let pid = match s.identity {
        Some(id) => if id <= 127 {
            id + 128
        } else {
            vstd::pervasive::unreached()
        },
        None => vstd::pervasive::unreached(),
    };
    if s.is_unit() {
        let mut out: Vec<u8> = Vec::with_capacity(1);
        out.push(pid);
        proof {
            assert(out@ =~= spec_partial_msg(*s, *ps, p.dv()));
        }
        out
    } else {
        let cap = partial_unpadded_size(s, ps);
        let mut out: Vec<u8> = Vec::with_capacity(
            if cap <= usize::MAX - 17 {
                cap + 17
            } else {
                cap
            },
        );
        out.push(pid);
        write_partial_top(s, ps, &p.slots, &mut out);
        proof {
            assert(out@ =~= spec_partial_msg(*s, *ps, p.dv()));
        }
        out
    }
}

/// Reads one field value at `pos`.
fn read_value(k: &FieldKind, bytes: &[u8], pos: usize) -> (r: Result<(Value, usize), CodecError>)
    requires
        pos <= bytes@.len(),
    ensures
        match r {
            Ok(p) => {
                &&& dec_value(*k, bytes@, pos as int) matches Some(t)
                &&& t.0 == p.0.dv()
                &&& t.1 == p.1
                &&& pos <= p.1 <= bytes@.len()
            },
            Err(e) => dec_value(*k, bytes@, pos as int) is None && e == CodecError::Truncated,
        },
    decreases *k, 0int,
{
    match k {
        FieldKind::Fixed(w) => {
            if pos <= bytes.len() && *w <= bytes.len() - pos {
                let b = read_bytes(bytes, pos, *w);
                Ok((Value::Fixed(b), pos + *w))
            } else {
                Err(CodecError::Truncated)
            }
        },
        FieldKind::Buffer(_) => {
            if pos < bytes.len() && 2 <= bytes.len() - pos {
                let n = bytes[pos] as usize + 256 * (bytes[pos + 1] as usize);
                if n <= bytes.len() - (pos + 2) {
                    let b = read_bytes(bytes, pos + 2, n);
                    Ok((Value::Buf(b), pos + 2 + n))
                } else {
                    Err(CodecError::Truncated)
                }
            } else {
                Err(CodecError::Truncated)
            }
        },
        FieldKind::Record(n) => {
            match read_fields(n, bytes, pos) {
                Ok((vals, end)) => {
                    let v = Value::Rec(Box::new(Record { fields: vals }));
                    proof {
                        assert(dec_value(*k, bytes@, pos as int) matches Some(t) && t.0 == v.dv()
                            && t.1 == end);
                    }
                    Ok((v, end))
                },
                Err(e) => Err(e),
            }
        },
    }
}

/// Reads a record's eligible fields at `pos`, in declaration order;
/// skipped fields take their default value.
fn read_fields(s: &RecordSchema, bytes: &[u8], pos: usize) -> (r: Result<
    (Vec<Value>, usize),
    CodecError,
>)
    requires
        pos <= bytes@.len(),
    ensures
        match r {
            Ok(p) => {
                &&& dec_fields(s.fields@, bytes@, pos as int, 0) matches Some(t)
                &&& t.0 == dv_values(p.0@)
                &&& t.1 == p.1
                &&& pos <= p.1 <= bytes@.len()
            },
            Err(e) => dec_fields(s.fields@, bytes@, pos as int, 0) is None && e
                == CodecError::Truncated,
        },
    decreases *s, 1int,
{
    let mut vals: Vec<Value> = Vec::new();
    let mut cur: usize = pos;
    let n = s.fields.len();
    for i in 0..n
        invariant
            n == s.fields@.len(),
            pos <= cur <= bytes@.len(),
            vals@.len() == i,
            dec_fields(s.fields@, bytes@, pos as int, 0) == (match dec_fields(
                s.fields@,
                bytes@,
                cur as int,
                i as int,
            ) {
                Some((vs, p)) => Some((dv_values(vals@) + vs, p)),
                None => None,
            }),
        decreases *s, 0int, n - i,
    {
        let ghost before = dv_values(vals@);
        let f = &s.fields[i];
        if f.skip {
            vals.push(make_default_value(&f.kind));
            proof {
                assert(dv_values(vals@) =~= before + seq![crate::values::default_value(f.kind)]);
                assert forall|vs: Seq<crate::values::ValueM>|
                    true implies before + (seq![crate::values::default_value(f.kind)] + vs)
                    =~= dv_values(vals@) + vs by {}
            }
        } else {
            match read_value(&f.kind, bytes, cur) {
                Ok((v, end)) => {
                    proof {
                        assert(dec_value(f.kind, bytes@, cur as int) matches Some(t) && t.0
                            == v.dv());
                    }
                    vals.push(v);
                    proof {
                        assert(dv_values(vals@) =~= before.push(vals@[i as int].dv()));
                    }
                    cur = end;
                    proof {
                        assert forall|vs: Seq<crate::values::ValueM>|
                            true implies before + (seq![vals@[i as int].dv()] + vs) =~= dv_values(
                            vals@,
                        ) + vs by {}
                    }
                },
                Err(e) => {
                    return Err(e);
                },
            }
        }
    }
    proof {
        assert(dv_values(vals@) + Seq::<crate::values::ValueM>::empty() =~= dv_values(vals@));
    }
    Ok((vals, cur))
}

/// Reads a partial's slots at `pos`, consuming presence bits from `mask`.
fn read_slots(
    s: &RecordSchema,
    ps: &PartialSchema,
    bytes: &[u8],
    mask: &Vec<u8>,
    pos: usize,
) -> (r: Result<(Vec<Slot>, usize), CodecError>)
    requires
        pos <= bytes@.len(),
    ensures
        match r {
            Ok(p) => {
                &&& dec_slots(s.fields@, ps.slots@, bytes@, mask@, pos as int, 0, 0) matches Some(
                    t,
                )
                &&& t.0 == dv_slots(p.0@)
                &&& t.1 == p.1
                &&& pos <= p.1 <= bytes@.len()
            },
            Err(e) => dec_slots(s.fields@, ps.slots@, bytes@, mask@, pos as int, 0, 0) is None
                && e == CodecError::Truncated,
        },
    decreases *s, 3int,
{
    let mut slots: Vec<Slot> = Vec::new();
    let mut cur: usize = pos;
    let mut bit: usize = 0;
    let n = ps.slots.len();
    for j in 0..n
        invariant
            n == ps.slots@.len(),
            pos <= cur <= bytes@.len(),
            bit <= j,
            slots@.len() == j,
            dec_slots(s.fields@, ps.slots@, bytes@, mask@, pos as int, 0, 0) == (match dec_slots(
                s.fields@,
                ps.slots@,
                bytes@,
                mask@,
                cur as int,
                j as int,
                bit as int,
            ) {
                Some((ss, p)) => Some((dv_slots(slots@) + ss, p)),
                None => None,
            }),
        decreases *s, 2int, n - j,
    {
        let ghost before = dv_slots(slots@);
        let sp = &ps.slots[j];
        let idx = sp.index;
        if idx >= s.fields.len() {
            return Err(CodecError::Truncated);
        }
        let k = &s.fields[idx].kind;
        match &sp.form {
            SlotForm::Required => {
                match read_value(k, bytes, cur) {
                    Ok((v, end)) => {
                        let ghost vd = v.dv();
                        slots.push(Slot::Req(v));
                        cur = end;
                        proof {
                            assert(dv_slots(slots@) =~= before.push(crate::values::SlotM::Req(vd)));
                            assert forall|ss: Seq<crate::values::SlotM>|
                                true implies before + (seq![crate::values::SlotM::Req(vd)] + ss)
                                =~= dv_slots(slots@) + ss by {}
                        }
                    },
                    Err(e) => {
                        return Err(e);
                    },
                }
            },
            SlotForm::Optional => {
                let set = bit / 8 < mask.len() && get_bit(mask[bit / 8], (bit % 8) as u8);
                proof {
                    assert(set == mask_bit(mask@, bit as int));
                }
                if set {
                    match read_value(k, bytes, cur) {
                        Ok((v, end)) => {
                            let ghost vd = v.dv();
                            slots.push(Slot::Opt(Some(v)));
                            cur = end;
                            bit = bit + 1;
                            proof {
                                assert(dv_slots(slots@) =~= before.push(
                                    crate::values::SlotM::Opt(Some(vd)),
                                ));
                                assert forall|ss: Seq<crate::values::SlotM>|
                                    true implies before + (seq![crate::values::SlotM::Opt(
                                    Some(vd),
                                )] + ss) =~= dv_slots(slots@) + ss by {}
                            }
                        },
                        Err(e) => {
                            return Err(e);
                        },
                    }
                } else {
                    slots.push(Slot::Opt(None));
                    bit = bit + 1;
                    proof {
                        assert(dv_slots(slots@) =~= before.push(crate::values::SlotM::Opt(None)));
                        assert forall|ss: Seq<crate::values::SlotM>|
                            true implies before + (seq![crate::values::SlotM::Opt(None)] + ss)
                            =~= dv_slots(slots@) + ss by {}
                    }
                }
            },
            SlotForm::Sub(nested) => {
                match k {
                    FieldKind::Record(n2) => {
                        let set = bit / 8 < mask.len() && get_bit(mask[bit / 8], (bit % 8) as u8);
                        proof {
                            assert(set == mask_bit(mask@, bit as int));
                        }
                        if set {
                            match read_partial_top(n2, nested, bytes, cur) {
                                Ok((subp, end)) => {
                                    let ghost sd = subp.dv();
                                    slots.push(Slot::Sub(Box::new(subp)));
                                    cur = end;
                                    bit = bit + 1;
                                    proof {
                                        assert(dv_slots(slots@) =~= before.push(
                                            crate::values::SlotM::Sub(sd),
                                        ));
                                        assert forall|ss: Seq<crate::values::SlotM>|
                                            true implies before + (seq![crate::values::SlotM::Sub(
                                            sd,
                                        )] + ss) =~= dv_slots(slots@) + ss by {}
                                    }
                                },
                                Err(e) => {
                                    return Err(e);
                                },
                            }
                        } else {
                            let subp = make_default_partial(n2, nested);
                            let ghost sd = subp.dv();
                            slots.push(Slot::Sub(Box::new(subp)));
                            bit = bit + 1;
                            proof {
                                assert(dv_slots(slots@) =~= before.push(
                                    crate::values::SlotM::Sub(sd),
                                ));
                                assert forall|ss: Seq<crate::values::SlotM>|
                                    true implies before + (seq![crate::values::SlotM::Sub(sd)]
                                    + ss) =~= dv_slots(slots@) + ss by {}
                            }
                        }
                    },
                    _ => {
                        return Err(CodecError::Truncated);
                    },
                }
            },
        }
    }
    proof {
        assert(dv_slots(slots@) + Seq::<crate::values::SlotM>::empty() =~= dv_slots(slots@));
    }
    Ok((slots, cur))
}

/// Reads a partial's mask-prefixed body at `pos`: the mask bytes, then the
/// slots.
fn read_partial_top(s: &RecordSchema, ps: &PartialSchema, bytes: &[u8], pos: usize) -> (r: Result<
    (Partial, usize),
    CodecError,
>)
    requires
        pos <= bytes@.len(),
    ensures
        match r {
            Ok(p) => {
                &&& dec_partial_top(*s, *ps, bytes@, pos as int) matches Some(t)
                &&& t.0 == p.0.dv()
                &&& t.1 == p.1
                &&& pos <= p.1 <= bytes@.len()
            },
            Err(e) => dec_partial_top(*s, *ps, bytes@, pos as int) is None && e
                == CodecError::Truncated,
        },
    decreases *s, 4int,
{
    let w = mask_width(count_opt_slots(&ps.slots));
    if pos <= bytes.len() && w <= bytes.len() - pos {
        let mask = read_bytes(bytes, pos, w);
        match read_slots(s, ps, bytes, &mask, pos + w) {
            Ok((slots, end)) => Ok((Partial { slots }, end)),
            Err(e) => Err(e),
        }
    } else {
        Err(CodecError::Truncated)
    }
}

/// Reads a record's field payloads starting at `start` (just after the
/// identity byte), returning the record and the position after the last
/// field; trailing bytes are ignored.
pub fn decode_record_payload(s: &RecordSchema, bytes: &[u8], start: usize) -> (r: Result<
    (Record, usize),
    CodecError,
>)
    requires
        start <= bytes@.len(),
    ensures
        match r {
            Ok(p) => {
                &&& dec_fields(s.fields@, bytes@, start as int, 0) matches Some(t)
                &&& t.0 == p.0.dv()
                &&& t.1 == p.1
            },
            Err(e) => dec_fields(s.fields@, bytes@, start as int, 0) is None && e
                == CodecError::Truncated,
        },
{
    match read_fields(s, bytes, start) {
        Ok((vals, end)) => Ok((Record { fields: vals }, end)),
        Err(e) => Err(e),
    }
}

/// Reads a partial's mask and slot payloads starting at `start` (just
/// after the identity byte), returning the partial and the position after
/// the consumed span; trailing bytes are ignored.
pub fn decode_partial_with(s: &RecordSchema, ps: &PartialSchema, bytes: &[u8], start: usize) -> (r:
    Result<(Partial, usize), CodecError>)
    requires
        start <= bytes@.len(),
    ensures
        match r {
            Ok(p) => {
                &&& dec_partial_top(*s, *ps, bytes@, start as int) matches Some(t)
                &&& t.0 == p.0.dv()
                &&& t.1 == p.1
            },
            Err(e) => dec_partial_top(*s, *ps, bytes@, start as int) is None && e
                == CodecError::Truncated,
        },
{
    read_partial_top(s, ps, bytes, start)
}

/// Deserializes a full record message: checks the identity byte, then
/// reads every field; trailing bytes are ignored.
pub fn deserialize_record(s: &RecordSchema, bytes: &[u8]) -> (r: Result<Record, CodecError>)
    requires
        s.identity is Some,
    ensures
        match r {
            Ok(rec) => spec_dec_record_msg(*s, bytes@) == Some(rec.dv()),
            Err(e) => {
                &&& spec_dec_record_msg(*s, bytes@) is None
                &&& e == if bytes@.len() < 1 || bytes@[0] != s.identity->0 {
                    CodecError::UnexpectedIdentity
                } else {
                    CodecError::Truncated
                }
            },
        },
{
    let id = match s.identity {
        Some(id) => id,
        None => vstd::pervasive::unreached(),
    };
    if bytes.len() < 1 || bytes[0] != id {
        return Err(CodecError::UnexpectedIdentity);
    }
    match read_fields(s, bytes, 1) {
        Ok((vals, _)) => Ok(Record { fields: vals }),
        Err(e) => Err(e),
    }
}

/// Deserializes a partial message: checks the partial identity byte, then
/// (unless the record is a unit record) reads the mask and the slots;
/// trailing bytes are ignored.
pub fn deserialize_partial(s: &RecordSchema, ps: &PartialSchema, bytes: &[u8]) -> (r: Result<
    Partial,
    CodecError,
>)
    requires
        spec_partial_identity(*s) is Some,
    ensures
        match r {
            Ok(p) => spec_dec_partial_msg(*s, *ps, bytes@) == Some(p.dv()),
            Err(e) => {
                &&& spec_dec_partial_msg(*s, *ps, bytes@) is None
                &&& e == if bytes@.len() < 1 || bytes@[0] != spec_partial_identity(*s)->0 {
                    CodecError::UnexpectedIdentity
                } else {
                    CodecError::Truncated
                }
            },
        },
{
    let pid = match s.identity {
        Some(id) => if id <= 127 {
            id + 128
        } else {
            vstd::pervasive::unreached()
        },
        None => vstd::pervasive::unreached(),
    };
    if bytes.len() < 1 || bytes[0] != pid {
        return Err(CodecError::UnexpectedIdentity);
    }
    if s.is_unit() {
        let p = Partial { slots: Vec::new() };
        proof {
            assert(p.dv() =~= Seq::<crate::values::SlotM>::empty());
        }
        return Ok(p);
    }
    match read_partial_top(s, ps, bytes, 1) {
        Ok((p, _)) => Ok(p),
        Err(e) => Err(e),
    }
}

} // verus!
