//! The round-trip laws of the wire codec.
//!
//! Decoding what was encoded gives the value back, up to what the wire
//! cannot carry: a skipped field is not on the wire, so a full-record
//! round trip returns it at its default value, and an unmodified nested
//! partial is dropped from the partial encoding, so a partial round trip
//! returns it in its default (Clean) state. `strip_fields` and
//! `strip_slots` say exactly that; for values without skipped fields, and
//! partials whose unmodified nested slots are already default, the round
//! trip is the identity.

use vstd::prelude::*;

use crate::codec::{
    dec_fields, dec_partial_top, dec_slots, dec_value, enc_fields, enc_partial_body, enc_partial_top,
    enc_slot, enc_slots, enc_value, lemma_opt_flags_len, opt_flags, spec_dec_partial_msg,
    spec_dec_record_msg, spec_full_msg, spec_partial_msg,
};
use crate::derive::{PartialSchema, SlotForm, SlotSpec};
use crate::layout::n_opt_slots;
use crate::mask::{lemma_mask_bit, mask_bit, spec_mask, spec_mask_width};
use crate::merge::{slot_modified, spec_modified};
use crate::schema::{spec_partial_identity, FieldKind, FieldSpec, RecordSchema};
use crate::values::{
    default_partial, default_value, wf_partial, wf_record, wf_slot, wf_value, SlotM, ValueM,
};
use vstd::arithmetic::div_mod::lemma_fundamental_div_mod;

verus! {

/// A full-record round trip returns this value: skipped fields inside it
/// come back at their defaults, everything else is unchanged.
pub open spec fn strip_value(k: FieldKind, v: ValueM) -> ValueM
    decreases k, 0int,
{
    match k {
        FieldKind::Record(n) => match v {
            ValueM::Rec(fs) => ValueM::Rec(strip_fields(n.fields@, fs, 0)),
            _ => v,
        },
        _ => v,
    }
}

/// The field values a full-record round trip returns for `fs[i..]`.
pub open spec fn strip_fields(fs: Seq<FieldSpec>, vals: Seq<ValueM>, i: int) -> Seq<ValueM>
    decreases fs, 1int, fs.len() - i,
{
    if i < 0 || i >= fs.len() {
        Seq::empty()
    } else {
        seq![
            if fs[i].skip {
                default_value(fs[i].kind)
            } else {
                strip_value(fs[i].kind, vals[i])
            },
        ] + strip_fields(fs, vals, i + 1)
    }
}

/// The slot a partial round trip returns: an unmodified nested partial
/// comes back in its default state (its payload is not on the wire), a
/// modified one round-trips recursively, and plain values are stripped of
/// skipped nested fields.
pub open spec fn strip_slot(fields: Seq<FieldSpec>, sp: SlotSpec, sl: SlotM) -> SlotM
    decreases fields, 2int, 0int,
{
    let idx = sp.index as int;
    if idx >= fields.len() {
        sl
    } else {
        let k = fields[idx].kind;
        match sp.form {
            SlotForm::Required => match sl {
                SlotM::Req(v) => SlotM::Req(strip_value(k, v)),
                _ => sl,
            },
            SlotForm::Optional => match sl {
                SlotM::Opt(o) => match o {
                    Some(v) => SlotM::Opt(Some(strip_value(k, v))),
                    None => sl,
                },
                _ => sl,
            },
            SlotForm::Sub(ps) => match (k, sl) {
                (FieldKind::Record(n), SlotM::Sub(ss)) => if spec_modified(ss) {
                    SlotM::Sub(strip_slots(n.fields@, ps.slots@, ss, 0))
                } else {
                    SlotM::Sub(default_partial(*n, *ps))
                },
                _ => sl,
            },
        }
    }
}

/// The slots a partial round trip returns for `sps[j..]`.
pub open spec fn strip_slots(fields: Seq<FieldSpec>, sps: Seq<SlotSpec>, slots: Seq<SlotM>, j: int) -> Seq<SlotM>
    decreases fields, 3int, sps.len() - j,
{
    if j < 0 || j >= sps.len() {
        Seq::empty()
    } else {
        seq![strip_slot(fields, sps[j], slots[j])] + strip_slots(fields, sps, slots, j + 1)
    }
}

/// Splits the fact that `a + b` sits at `pos` into its two halves.
proof fn lemma_subrange_cat(bytes: Seq<u8>, pos: int, a: Seq<u8>, b: Seq<u8>)
    requires
        0 <= pos,
        pos + a.len() + b.len() <= bytes.len(),
        bytes.subrange(pos, pos + a.len() + b.len()) == a + b,
    ensures
        bytes.subrange(pos, pos + a.len() as int) == a,
        bytes.subrange(pos + a.len(), pos + a.len() + b.len()) == b,
{
    let la = a.len() as int;
    let lb = b.len() as int;
    assert forall|q: int| 0 <= q < la implies bytes[pos + q] == a[q] by {
        assert(bytes.subrange(pos, pos + la + lb)[q] == bytes[pos + q]);
        assert((a + b)[q] == a[q]);
    }
    assert(bytes.subrange(pos, pos + la) =~= a);
    assert forall|q: int| 0 <= q < lb implies bytes[pos + la + q] == b[q] by {
        assert(bytes.subrange(pos, pos + la + lb)[la + q] == bytes[pos + la + q]);
        assert((a + b)[la + q] == b[q]);
    }
    assert(bytes.subrange(pos + la, pos + la + lb) =~= b);
}

/// Decoding an encoded value at its position gives the stripped value and
/// lands just past it.
pub proof fn lemma_rt_value(k: FieldKind, v: ValueM, bytes: Seq<u8>, pos: int)
    requires
        wf_value(k, v),
        0 <= pos,
        pos + enc_value(k, v).len() <= bytes.len(),
        bytes.subrange(pos, pos + enc_value(k, v).len()) == enc_value(k, v),
    ensures
        dec_value(k, bytes, pos) == Some((strip_value(k, v), pos + enc_value(k, v).len())),
    decreases k, 0int, 0int,
{
    match k {
        FieldKind::Fixed(w) => {
            let b = v->Fixed_0;
            assert(bytes.subrange(pos, pos + w) =~= b);
        },
        FieldKind::Buffer(_) => {
            let b = v->Buf_0;
            let len = b.len() as int;
            let e = enc_value(k, v);
            assert(e.len() == 2 + len);
            assert(bytes.subrange(pos, pos + e.len() as int)[0] == bytes[pos]);
            assert(bytes.subrange(pos, pos + e.len() as int)[1] == bytes[pos + 1]);
            assert(bytes[pos] == e[0]);
            assert(bytes[pos + 1] == e[1]);
            assert(e[0] == (len % 256) as u8);
            assert(e[1] == ((len / 256) % 256) as u8);
            lemma_fundamental_div_mod(len, 256);
            assert((len / 256) % 256 == len / 256);
            assert(bytes[pos] + 256 * bytes[pos + 1] == len);
            assert forall|q: int| 0 <= q < len implies bytes[pos + 2 + q] == b[q] by {
                assert(bytes.subrange(pos, pos + e.len() as int)[2 + q] == bytes[pos + 2 + q]);
                assert(e[2 + q] == b[q]);
            }
            assert(bytes.subrange(pos + 2, pos + 2 + len) =~= b);
        },
        FieldKind::Record(n) => {
            let fs = v->Rec_0;
            lemma_rt_fields(n.fields@, fs, bytes, pos, 0);
        },
    }
}

/// Decoding encoded fields gives the stripped values and lands just past
/// them.
pub proof fn lemma_rt_fields(fs: Seq<FieldSpec>, vals: Seq<ValueM>, bytes: Seq<u8>, pos: int, i: int)
    requires
        0 <= i <= fs.len(),
        vals.len() == fs.len(),
        forall|m: int| i <= m < fs.len() ==> wf_value((#[trigger] fs[m]).kind, vals[m]),
        0 <= pos,
        pos + enc_fields(fs, vals, i).len() <= bytes.len(),
        bytes.subrange(pos, pos + enc_fields(fs, vals, i).len()) == enc_fields(fs, vals, i),
    ensures
        dec_fields(fs, bytes, pos, i) == Some(
            (strip_fields(fs, vals, i), pos + enc_fields(fs, vals, i).len()),
        ),
    decreases fs, 1int, fs.len() - i,
{
    if i == fs.len() {
        assert(strip_fields(fs, vals, i) =~= Seq::<ValueM>::empty());
    } else {
        let e1 = if fs[i].skip {
            Seq::<u8>::empty()
        } else {
            enc_value(fs[i].kind, vals[i])
        };
        let e2 = enc_fields(fs, vals, i + 1);
        assert(enc_fields(fs, vals, i) == e1 + e2);
        lemma_subrange_cat(bytes, pos, e1, e2);
        if fs[i].skip {
            lemma_rt_fields(fs, vals, bytes, pos, i + 1);
            assert(dec_fields(fs, bytes, pos, i) matches Some(t) && t == (
                strip_fields(fs, vals, i),
                pos + enc_fields(fs, vals, i).len(),
            ));
        } else {
            lemma_rt_value(fs[i].kind, vals[i], bytes, pos);
            lemma_rt_fields(fs, vals, bytes, pos + e1.len(), i + 1);
            assert(dec_fields(fs, bytes, pos, i) matches Some(t) && t == (
                strip_fields(fs, vals, i),
                pos + enc_fields(fs, vals, i).len(),
            ));
        }
    }
}

/// Decoding encoded slots, with a mask whose bits from `bit` on agree with
/// the slots' presence flags, gives the stripped slots and lands just past
/// them.
pub proof fn lemma_rt_slots(
    s: RecordSchema,
    sps: Seq<SlotSpec>,
    slots: Seq<SlotM>,
    mask: Seq<u8>,
    bytes: Seq<u8>,
    pos: int,
    j: int,
    bit: int,
)
    requires
        0 <= j <= sps.len(),
        slots.len() == sps.len(),
        forall|m: int| j <= m < sps.len() ==> wf_slot(s, (#[trigger] sps[m]), slots[m]),
        0 <= bit,
        forall|q: int|
            0 <= q < opt_flags(sps, slots, j).len() ==> mask_bit(mask, bit + q) == opt_flags(
                sps,
                slots,
                j,
            )[q],
        0 <= pos,
        pos + enc_slots(s.fields@, sps, slots, j).len() <= bytes.len(),
        bytes.subrange(pos, pos + enc_slots(s.fields@, sps, slots, j).len()) == enc_slots(
            s.fields@,
            sps,
            slots,
            j,
        ),
    ensures
        dec_slots(s.fields@, sps, bytes, mask, pos, j, bit) == Some(
            (strip_slots(s.fields@, sps, slots, j), pos + enc_slots(s.fields@, sps, slots, j).len()),
        ),
    decreases s, 0int, sps.len() - j,
{
    if j == sps.len() {
        assert(strip_slots(s.fields@, sps, slots, j) =~= Seq::<SlotM>::empty());
    } else {
        assert(wf_slot(s, sps[j], slots[j]));
        let idx = sps[j].index as int;
        let k = s.fields@[idx].kind;
        let e1 = enc_slot(s.fields@, sps[j], slots[j]);
        let e2 = enc_slots(s.fields@, sps, slots, j + 1);
        assert(enc_slots(s.fields@, sps, slots, j) == e1 + e2);
        lemma_subrange_cat(bytes, pos, e1, e2);
        let flags = opt_flags(sps, slots, j);
        match sps[j].form {
            SlotForm::Required => {
                let v = slots[j]->Req_0;
                lemma_rt_value(k, v, bytes, pos);
                lemma_rt_slots(s, sps, slots, mask, bytes, pos + e1.len(), j + 1, bit);
                let head = SlotM::Req(strip_value(k, v));
                assert(strip_slot(s.fields@, sps[j], slots[j]) == head);
                assert(strip_slots(s.fields@, sps, slots, j) =~= seq![head] + strip_slots(
                    s.fields@,
                    sps,
                    slots,
                    j + 1,
                ));
            },
            SlotForm::Optional => {
                let o = slots[j]->Opt_0;
                assert(flags[0] == slot_modified(slots[j]));
                assert(mask_bit(mask, bit) == (o is Some));
                assert forall|q: int|
                    0 <= q < opt_flags(sps, slots, j + 1).len() implies mask_bit(mask, bit + 1 + q)
                    == #[trigger] opt_flags(sps, slots, j + 1)[q] by {
                    assert(flags[q + 1] == opt_flags(sps, slots, j + 1)[q]);
                    assert(mask_bit(mask, bit + (q + 1)) == flags[q + 1]);
                }
                match o {
                    Some(v) => {
                        lemma_rt_value(k, v, bytes, pos);
                        lemma_rt_slots(s, sps, slots, mask, bytes, pos + e1.len(), j + 1, bit + 1);
                        let head = SlotM::Opt(Some(strip_value(k, v)));
                        assert(strip_slot(s.fields@, sps[j], slots[j]) == head);
                        assert(strip_slots(s.fields@, sps, slots, j) =~= seq![head] + strip_slots(
                            s.fields@,
                            sps,
                            slots,
                            j + 1,
                        ));
                    },
                    None => {
                        lemma_rt_slots(s, sps, slots, mask, bytes, pos, j + 1, bit + 1);
                        let head = SlotM::Opt(None);
                        assert(strip_slot(s.fields@, sps[j], slots[j]) == head);
                        assert(strip_slots(s.fields@, sps, slots, j) =~= seq![head] + strip_slots(
                            s.fields@,
                            sps,
                            slots,
                            j + 1,
                        ));
                    },
                }
            },
            SlotForm::Sub(ps) => {
                let ss = slots[j]->Sub_0;
                let n = k->Record_0;
                assert(flags[0] == slot_modified(slots[j]));
                assert(mask_bit(mask, bit) == spec_modified(ss));
                assert forall|q: int|
                    0 <= q < opt_flags(sps, slots, j + 1).len() implies mask_bit(mask, bit + 1 + q)
                    == #[trigger] opt_flags(sps, slots, j + 1)[q] by {
                    assert(flags[q + 1] == opt_flags(sps, slots, j + 1)[q]);
                    assert(mask_bit(mask, bit + (q + 1)) == flags[q + 1]);
                }
                if spec_modified(ss) {
                    assert(e1 == enc_partial_body(s.fields@, idx, *ps, ss));
                    assert(e1 == enc_partial_top(n.fields@, *ps, ss));
                    lemma_rt_partial_top(*n, *ps, ss, bytes, pos);
                    lemma_rt_slots(s, sps, slots, mask, bytes, pos + e1.len(), j + 1, bit + 1);
                    let head = SlotM::Sub(strip_slots(n.fields@, ps.slots@, ss, 0));
                    assert(strip_slot(s.fields@, sps[j], slots[j]) == head);
                    assert(strip_slots(s.fields@, sps, slots, j) =~= seq![head] + strip_slots(
                        s.fields@,
                        sps,
                        slots,
                        j + 1,
                    ));
                } else {
                    lemma_rt_slots(s, sps, slots, mask, bytes, pos, j + 1, bit + 1);
                    let head = SlotM::Sub(default_partial(*n, *ps));
                    assert(strip_slot(s.fields@, sps[j], slots[j]) == head);
                    assert(strip_slots(s.fields@, sps, slots, j) =~= seq![head] + strip_slots(
                        s.fields@,
                        sps,
                        slots,
                        j + 1,
                    ));
                }
            },
        }
    }
}

/// Decoding an encoded mask-prefixed partial body gives the stripped slots
/// and lands just past them.
pub proof fn lemma_rt_partial_top(
    s: RecordSchema,
    ps: PartialSchema,
    slots: Seq<SlotM>,
    bytes: Seq<u8>,
    pos: int,
)
    requires
        wf_partial(s, ps, slots),
        n_opt_slots(ps.slots@, 0) <= 128,
        0 <= pos,
        pos + enc_partial_top(s.fields@, ps, slots).len() <= bytes.len(),
        bytes.subrange(pos, pos + enc_partial_top(s.fields@, ps, slots).len()) == enc_partial_top(
            s.fields@,
            ps,
            slots,
        ),
    ensures
        dec_partial_top(s, ps, bytes, pos) == Some(
            (
                strip_slots(s.fields@, ps.slots@, slots, 0),
                pos + enc_partial_top(s.fields@, ps, slots).len(),
            ),
        ),
    decreases s, 1int, 0int,
{
    let n = n_opt_slots(ps.slots@, 0);
    let w = spec_mask_width(n);
    let flags = opt_flags(ps.slots@, slots, 0);
    lemma_opt_flags_len(ps.slots@, slots, 0);
    let m = spec_mask(flags, w);
    assert(m.len() == w);
    let e2 = enc_slots(s.fields@, ps.slots@, slots, 0);
    assert(enc_partial_top(s.fields@, ps, slots) == m + e2);
    lemma_subrange_cat(bytes, pos, m, e2);
    let mask = bytes.subrange(pos, pos + w as int);
    assert(mask == m);
    assert forall|q: int| 0 <= q < flags.len() implies mask_bit(mask, 0 + q) == flags[q] by {
        lemma_mask_bit(flags, w, q);
    }
    lemma_rt_slots(s, ps.slots@, slots, mask, bytes, pos + w, 0, 0);
}

/// Round trip of the full encoding: decoding a record's wire message gives
/// every eligible field back unchanged and every skipped field at its
/// default.
pub proof fn lemma_record_round_trip(s: RecordSchema, rv: Seq<ValueM>)
    requires
        s.identity is Some,
        wf_record(s, rv),
    ensures
        spec_dec_record_msg(s, spec_full_msg(s, rv)) == Some(strip_fields(s.fields@, rv, 0)),
{
    let bytes = spec_full_msg(s, rv);
    let e = enc_fields(s.fields@, rv, 0);
    assert(bytes.subrange(1, 1 + e.len() as int) =~= e);
    lemma_rt_fields(s.fields@, rv, bytes, 1, 0);
}

/// Round trip of the partial encoding: decoding a partial's wire message
/// gives the stripped slots back.
pub proof fn lemma_partial_round_trip(s: RecordSchema, ps: PartialSchema, pv: Seq<SlotM>)
    requires
        spec_partial_identity(s) is Some,
        wf_partial(s, ps, pv),
        n_opt_slots(ps.slots@, 0) <= 128,
        s.layout is Unit ==> ps.slots@.len() == 0,
    ensures
        spec_dec_partial_msg(s, ps, spec_partial_msg(s, ps, pv)) == Some(
            strip_slots(s.fields@, ps.slots@, pv, 0),
        ),
{
    let bytes = spec_partial_msg(s, ps, pv);
    if s.layout is Unit {
        assert(strip_slots(s.fields@, ps.slots@, pv, 0) =~= Seq::<SlotM>::empty());
    } else {
        let e = enc_partial_top(s.fields@, ps, pv);
        assert(bytes.subrange(1, 1 + e.len() as int) =~= e);
        lemma_rt_partial_top(s, ps, pv, bytes, 1);
    }
}

/// No field of the schema, at any nesting depth, is skipped: everything is
/// on the wire.
pub open spec fn no_skip(fs: Seq<FieldSpec>) -> bool
    decreases fs,
{
    forall|i: int|
        0 <= i < fs.len() ==> !(#[trigger] fs[i]).skip && (fs[i].kind matches FieldKind::Record(n)
            ==> no_skip(n.fields@))
}

/// On a skip-free schema, stripping a well-formed value is the identity.
pub proof fn lemma_strip_value_id(k: FieldKind, v: ValueM)
    requires
        wf_value(k, v),
        k matches FieldKind::Record(n) ==> no_skip(n.fields@),
    ensures
        strip_value(k, v) == v,
    decreases k, 0int,
{
    match k {
        FieldKind::Record(n) => {
            lemma_strip_fields_id(n.fields@, v->Rec_0, 0);
            assert(strip_fields(n.fields@, v->Rec_0, 0) =~= v->Rec_0);
            assert(strip_value(k, v) =~~= v);
        },
        _ => {},
    }
}

/// On a skip-free schema, stripping well-formed field values gives the
/// suffix back unchanged.
pub proof fn lemma_strip_fields_id(fs: Seq<FieldSpec>, vals: Seq<ValueM>, i: int)
    requires
        no_skip(fs),
        0 <= i <= fs.len(),
        vals.len() == fs.len(),
        forall|m: int| i <= m < fs.len() ==> wf_value((#[trigger] fs[m]).kind, vals[m]),
    ensures
        strip_fields(fs, vals, i) == vals.subrange(i, vals.len() as int),
    decreases fs, 1int, fs.len() - i,
{
    if i == fs.len() {
        assert(strip_fields(fs, vals, i) =~= vals.subrange(i, vals.len() as int));
    } else {
        lemma_strip_value_id(fs[i].kind, vals[i]);
        lemma_strip_fields_id(fs, vals, i + 1);
        assert(strip_fields(fs, vals, i) =~= vals.subrange(i, vals.len() as int));
    }
}

/// Every unmodified nested partial in the slots, at any depth, is already
/// in its default (Clean) state. The partial encoding drops unmodified
/// nested slots entirely, so only such partials round-trip to themselves.
pub open spec fn sub_faithful(fields: Seq<FieldSpec>, sps: Seq<SlotSpec>, slots: Seq<SlotM>) -> bool
    decreases fields, 4int,
{
    forall|j: int|
        0 <= j < sps.len() && j < slots.len() ==> match ((#[trigger] sps[j]).form, slots[j]) {
            (SlotForm::Sub(ps), SlotM::Sub(ss)) => {
                0 <= sps[j].index < fields.len() && match fields[sps[j].index as int].kind {
                    FieldKind::Record(n) => (spec_modified(ss) || ss == default_partial(*n, *ps))
                        && sub_faithful(n.fields@, ps.slots@, ss),
                    _ => true,
                }
            },
            _ => true,
        }
}

/// On a skip-free schema, stripping well-formed, faithful slots gives the
/// suffix back unchanged.
pub proof fn lemma_strip_slots_id(
    s: RecordSchema,
    sps: Seq<SlotSpec>,
    slots: Seq<SlotM>,
    j: int,
)
    requires
        no_skip(s.fields@),
        0 <= j <= sps.len(),
        slots.len() == sps.len(),
        forall|m: int| j <= m < sps.len() ==> wf_slot(s, (#[trigger] sps[m]), slots[m]),
        sub_faithful(s.fields@, sps, slots),
    ensures
        strip_slots(s.fields@, sps, slots, j) == slots.subrange(j, slots.len() as int),
    decreases s, 0int, sps.len() - j,
{
    if j == sps.len() {
        assert(strip_slots(s.fields@, sps, slots, j) =~= slots.subrange(j, slots.len() as int));
    } else {
        assert(wf_slot(s, sps[j], slots[j]));
        let idx = sps[j].index as int;
        let k = s.fields@[idx].kind;
        match sps[j].form {
            SlotForm::Required => {
                lemma_strip_value_id(k, slots[j]->Req_0);
            },
            SlotForm::Optional => {
                match slots[j]->Opt_0 {
                    Some(v) => {
                        lemma_strip_value_id(k, v);
                    },
                    None => {},
                }
            },
            SlotForm::Sub(ps) => {
                let ss = slots[j]->Sub_0;
                let n = k->Record_0;
                if spec_modified(ss) {
                    lemma_strip_slots_id(*n, ps.slots@, ss, 0);
                    assert(strip_slots(n.fields@, ps.slots@, ss, 0) =~= ss);
                    assert(strip_slot(s.fields@, sps[j], slots[j]) =~~= slots[j]);
                } else {
                    assert(ss == default_partial(*n, *ps));
                }
            },
        }
        lemma_strip_slots_id(s, sps, slots, j + 1);
        assert(strip_slots(s.fields@, sps, slots, j) =~= slots.subrange(j, slots.len() as int));
    }
}

/// Round trip, exactly: on a skip-free schema, decoding a record's wire
/// message gives the record back unchanged.
pub proof fn lemma_record_round_trip_exact(s: RecordSchema, rv: Seq<ValueM>)
    requires
        s.identity is Some,
        wf_record(s, rv),
        no_skip(s.fields@),
    ensures
        spec_dec_record_msg(s, spec_full_msg(s, rv)) == Some(rv),
{
    lemma_record_round_trip(s, rv);
    lemma_strip_fields_id(s.fields@, rv, 0);
    assert(rv.subrange(0, rv.len() as int) =~= rv);
}

/// Round trip, exactly: on a skip-free schema, decoding a partial's wire
/// message gives the partial back unchanged, provided every unmodified
/// nested partial in it is already Clean at its defaults (the wire drops
/// them).
pub proof fn lemma_partial_round_trip_exact(s: RecordSchema, ps: PartialSchema, pv: Seq<SlotM>)
    requires
        spec_partial_identity(s) is Some,
        wf_partial(s, ps, pv),
        n_opt_slots(ps.slots@, 0) <= 128,
        s.layout is Unit ==> ps.slots@.len() == 0,
        no_skip(s.fields@),
        sub_faithful(s.fields@, ps.slots@, pv),
    ensures
        spec_dec_partial_msg(s, ps, spec_partial_msg(s, ps, pv)) == Some(pv),
{
    lemma_partial_round_trip(s, ps, pv);
    lemma_strip_slots_id(s, ps.slots@, pv, 0);
    assert(pv.subrange(0, pv.len() as int) =~= pv);
}

} // verus!
