//! The merge/patch engine: modification state, `take`, and `patch`.
//!
//! A partial instance is Clean when no optional slot (transitively, through
//! flattened nested partials) holds a value; required slots never affect
//! that state. `take` moves every slot value into an owned snapshot and
//! resets the optional slots; `patch` takes the snapshot and overwrites the
//! record's fields with every value the snapshot holds.

use vstd::prelude::*;

use crate::derive::{derives_to, slot_matches, PartialSchema, SlotForm, SlotSpec};
use crate::schema::{eligible, RecordSchema};
use crate::values::{
    dv_slots, dv_values, wf_partial, wf_record, Partial, Record, Slot, SlotM, Value, ValueM,
};

verus! {

/// Whether one slot carries a change: required slots never do, an optional
/// slot does when it holds a value, a flattened nested partial does when it
/// is modified itself.
pub open spec fn slot_modified(sl: SlotM) -> bool
    decreases sl,
{
    match sl {
        SlotM::Req(_) => false,
        SlotM::Opt(o) => o is Some,
        SlotM::Sub(ss) => spec_modified(ss),
    }
}

/// Whether a partial carries any change: the logical OR over its slots.
pub open spec fn spec_modified(slots: Seq<SlotM>) -> bool
    decreases slots,
{
    exists|j: int| 0 <= j < slots.len() && slot_modified(#[trigger] slots[j])
}

/// One slot after `take`: required slots keep their value, optional slots
/// are emptied, nested partials are cleared in turn.
pub open spec fn clear_slot(sl: SlotM) -> SlotM
    decreases sl,
{
    match sl {
        SlotM::Req(v) => SlotM::Req(v),
        SlotM::Opt(_) => SlotM::Opt(None),
        SlotM::Sub(ss) => SlotM::Sub(spec_cleared(ss)),
    }
}

/// A partial after `take`.
pub open spec fn spec_cleared(slots: Seq<SlotM>) -> Seq<SlotM>
    decreases slots,
{
    Seq::new(
        slots.len(),
        |j: int|
            if 0 <= j < slots.len() {
                clear_slot(slots[j])
            } else {
                SlotM::Opt(None)
            },
    )
}

/// A cleared slot carries no change.
pub proof fn lemma_clear_slot_clean(sl: SlotM)
    ensures
        !slot_modified(clear_slot(sl)),
    decreases sl,
{
    match sl {
        SlotM::Sub(ss) => {
            lemma_cleared_clean(ss);
        },
        _ => {},
    }
}

/// A cleared partial is Clean.
pub proof fn lemma_cleared_clean(slots: Seq<SlotM>)
    ensures
        !spec_modified(spec_cleared(slots)),
    decreases slots,
{
    assert forall|j: int|
        0 <= j < spec_cleared(slots).len() implies !slot_modified(
        #[trigger] spec_cleared(slots)[j],
    ) by {
        lemma_clear_slot_clean(slots[j]);
    }
}

/// Clearing a slot that carries no change leaves it as it is.
pub proof fn lemma_clear_slot_unmodified(sl: SlotM)
    requires
        !slot_modified(sl),
    ensures
        clear_slot(sl) == sl,
    decreases sl,
{
    match sl {
        SlotM::Sub(ss) => {
            lemma_cleared_unmodified(ss);
        },
        _ => {},
    }
}

/// Idempotent clean state: clearing an already-Clean partial is the
/// identity, so `take` on a Clean partial returns a snapshot equal to the
/// partial's current state and leaves it Clean.
pub proof fn lemma_cleared_unmodified(slots: Seq<SlotM>)
    requires
        !spec_modified(slots),
    ensures
        spec_cleared(slots) == slots,
    decreases slots,
{
    assert forall|j: int| 0 <= j < slots.len() implies #[trigger] spec_cleared(slots)[j]
        == slots[j] by {
        assert(!slot_modified(slots[j]));
        lemma_clear_slot_unmodified(slots[j]);
    }
    assert(spec_cleared(slots) =~= slots);
}

/// The record fields after applying one taken slot: a required or present
/// optional value overwrites the field, an empty optional slot changes
/// nothing, and a nested partial merges into the nested record value.
pub open spec fn apply_slot(sp: SlotSpec, rv: Seq<ValueM>, sl: SlotM) -> Seq<ValueM>
    decreases sp, 1int, 0int,
{
    let idx = sp.index as int;
    if idx >= rv.len() {
        rv
    } else {
        match sl {
            SlotM::Req(v) => rv.update(idx, v),
            SlotM::Opt(o) => match o {
                Some(v) => rv.update(idx, v),
                None => rv,
            },
            SlotM::Sub(ss) => match sp.form {
                SlotForm::Sub(ps) => if rv[idx] is Rec {
                    rv.update(idx, ValueM::Rec(spec_merge(ps.slots@, rv[idx]->Rec_0, ss, 0)))
                } else {
                    rv
                },
                _ => rv,
            },
        }
    }
}

/// The record fields after applying the taken slots `j..` in order.
pub open spec fn spec_merge(sps: Seq<SlotSpec>, rv: Seq<ValueM>, pv: Seq<SlotM>, j: int) -> Seq<
    ValueM,
>
    decreases sps, 0int, sps.len() - j,
{
    if j < 0 || j >= sps.len() || j >= pv.len() {
        rv
    } else {
        spec_merge(sps, apply_slot(sps[j], rv, pv[j]), pv, j + 1)
    }
}

/// Merging never changes the number of fields.
pub proof fn lemma_merge_len(sps: Seq<SlotSpec>, rv: Seq<ValueM>, pv: Seq<SlotM>, j: int)
    ensures
        spec_merge(sps, rv, pv, j).len() == rv.len(),
    decreases sps.len() - j,
{
    if 0 <= j < sps.len() && j < pv.len() {
        lemma_merge_len(sps, apply_slot(sps[j], rv, pv[j]), pv, j + 1);
    }
}

/// A field whose index no slot in `j..` names is left unchanged by the
/// merge.
pub proof fn lemma_merge_untouched(
    sps: Seq<SlotSpec>,
    rv: Seq<ValueM>,
    pv: Seq<SlotM>,
    j: int,
    k: int,
)
    requires
        forall|m: int| j <= m < sps.len() ==> (#[trigger] sps[m]).index != k,
        0 <= k < rv.len(),
    ensures
        spec_merge(sps, rv, pv, j)[k] == rv[k],
    decreases sps.len() - j,
{
    if 0 <= j < sps.len() && j < pv.len() {
        let rv2 = apply_slot(sps[j], rv, pv[j]);
        assert(rv2[k] == rv[k]);
        assert(rv2.len() == rv.len());
        lemma_merge_untouched(sps, rv2, pv, j + 1, k);
    }
}

/// Patch convergence, per slot: after the merge, a field named by a
/// required slot or by a present optional slot holds that slot's value; a
/// field named by an empty optional slot is unchanged; a field named by a
/// nested slot holds the recursive merge of its old value.
pub proof fn lemma_merge_slot_effect(
    sps: Seq<SlotSpec>,
    rv: Seq<ValueM>,
    pv: Seq<SlotM>,
    j0: int,
    j: int,
)
    requires
        forall|j1: int, j2: int|
            0 <= j1 < j2 < sps.len() ==> (#[trigger] sps[j1]).index < (
            #[trigger] sps[j2]).index,
        forall|m: int| 0 <= m < sps.len() ==> (#[trigger] sps[m]).index < rv.len(),
        sps.len() == pv.len(),
        0 <= j0 <= j < sps.len(),
    ensures
        ({
            let k = sps[j].index as int;
            let out = spec_merge(sps, rv, pv, j0);
            match pv[j] {
                SlotM::Req(v) => out[k] == v,
                SlotM::Opt(o) => match o {
                    Some(v) => out[k] == v,
                    None => out[k] == rv[k],
                },
                SlotM::Sub(ss) => match sps[j].form {
                    SlotForm::Sub(ps) => out[k] == (if rv[k] is Rec {
                        ValueM::Rec(spec_merge(ps.slots@, rv[k]->Rec_0, ss, 0))
                    } else {
                        rv[k]
                    }),
                    _ => out[k] == rv[k],
                },
            }
        }),
    decreases j - j0,
{
    let k = sps[j].index as int;
    let rv2 = apply_slot(sps[j0], rv, pv[j0]);
    if j0 == j {
        assert(rv2.len() == rv.len());
        assert forall|m: int| j0 + 1 <= m < sps.len() implies (#[trigger] sps[m]).index != k by {
            assert(sps[j0].index < sps[m].index);
        }
        lemma_merge_untouched(sps, rv2, pv, j0 + 1, k);
    } else {
        assert(sps[j0].index != k);
        assert(rv2[k] == rv[k]);
        assert(rv2.len() == rv.len());
        lemma_merge_slot_effect(sps, rv2, pv, j0 + 1, j);
    }
}

/// Whether one slot of a partial instance carries a change.
fn slot_is_modified(sl: &Slot) -> (r: bool)
    ensures
        r == slot_modified(sl.dv()),
    decreases *sl,
{
    match sl {
        Slot::Req(_) => false,
        Slot::Opt(o) => o.is_some(),
        Slot::Sub(p) => p.is_modified(),
    }
}

/// Splits one slot into its snapshot and its cleared remainder.
fn split_slot(sl: &Slot) -> (pair: (Slot, Slot))
    ensures
        pair.0.dv() == sl.dv(),
        pair.1.dv() == clear_slot(sl.dv()),
    decreases *sl,
{
    match sl {
        Slot::Req(v) => (Slot::Req(v.dup()), Slot::Req(v.dup())),
        Slot::Opt(o) => match o {
            Some(v) => (Slot::Opt(Some(v.dup())), Slot::Opt(None)),
            None => (Slot::Opt(None), Slot::Opt(None)),
        },
        Slot::Sub(p) => {
            let (snap, cleared) = split_partial(p);
            let pair = (Slot::Sub(Box::new(snap)), Slot::Sub(Box::new(cleared)));
            proof {
                assert(pair.0.dv() =~~= sl.dv());
                assert(pair.1.dv() =~~= clear_slot(sl.dv()));
            }
            pair
        },
    }
}

/// Splits a partial instance into its snapshot and its cleared remainder.
fn split_partial(p: &Partial) -> (pair: (Partial, Partial))
    ensures
        pair.0.dv() == p.dv(),
        pair.1.dv() == spec_cleared(p.dv()),
    decreases *p,
{
    let mut snap: Vec<Slot> = Vec::with_capacity(p.slots.len());
    let mut cleared: Vec<Slot> = Vec::with_capacity(p.slots.len());
    let n = p.slots.len();
    for i in 0..n
        invariant
            n == p.slots@.len(),
            snap@.len() == i,
            cleared@.len() == i,
            forall|j: int| 0 <= j < i ==> (#[trigger] snap@[j]).dv() == p.slots@[j].dv(),
            forall|j: int|
                0 <= j < i ==> (#[trigger] cleared@[j]).dv() == clear_slot(p.slots@[j].dv()),
        decreases *p, 0int, n - i,
    {
        let (s0, c0) = split_slot(&p.slots[i]);
        snap.push(s0);
        cleared.push(c0);
    }
    let pair = (Partial { slots: snap }, Partial { slots: cleared });
    proof {
        assert(pair.0.dv() =~= p.dv());
        assert(pair.1.dv() =~= spec_cleared(p.dv()));
    }
    pair
}

impl Partial {
    /// Whether this partial carries any change. A partial with only
    /// required slots always reports `false`.
    pub fn is_modified(&self) -> (r: bool)
        ensures
            r == spec_modified(self.dv()),
        decreases *self,
    {
        let n = self.slots.len();
        for i in 0..n
            invariant
                n == self.slots@.len(),
                forall|j: int| 0 <= j < i ==> !slot_modified(#[trigger] self.dv()[j]),
            decreases *self, 0int, n - i,
        {
            if slot_is_modified(&self.slots[i]) {
                assert(slot_modified(self.dv()[i as int]));
                return true;
            }
        }
        false
    }

    /// Moves every slot value out into an owned snapshot and resets this
    /// partial to the Clean state: optional slots are emptied, nested
    /// partials are cleared in turn, required slots keep their value.
    pub fn take(&mut self) -> (snap: Partial)
        ensures
            snap.dv() == old(self).dv(),
            final(self).dv() == spec_cleared(old(self).dv()),
            !spec_modified(final(self).dv()),
    {
        let (snap, cleared) = split_partial(self);
        *self = cleared;
        proof {
            lemma_cleared_clean(old(self).dv());
        }
        snap
    }
}

/// Applies taken slots onto record fields, in slot order.
fn apply_slots(sps: &Vec<SlotSpec>, fields: &mut Vec<Value>, slots: &Vec<Slot>)
    ensures
        dv_values(final(fields)@) == spec_merge(
            sps@,
            dv_values(old(fields)@),
            dv_slots(slots@),
            0,
        ),
    decreases *sps,
{
    let n = if sps.len() <= slots.len() {
        sps.len()
    } else {
        slots.len()
    };
    let ghost pv = dv_slots(slots@);
    let ghost orig = dv_values(old(fields)@);
    for j in 0..n
        invariant
            n == if sps@.len() <= slots@.len() {
                sps@.len()
            } else {
                slots@.len()
            },
            pv == dv_slots(slots@),
            orig == dv_values(old(fields)@),
            spec_merge(sps@, orig, pv, 0) == spec_merge(sps@, dv_values(fields@), pv, j as int),
        decreases *sps, 0int, n - j,
    {
        let sp = &sps[j];
        let sl = &slots[j];
        let idx = sp.index;
        let ghost before = dv_values(fields@);
        if idx < fields.len() {
            match sl {
                Slot::Req(v) => {
                    let _old = fields.remove(idx);
                    fields.insert(idx, v.dup());
                    proof {
                        assert(dv_values(fields@) =~= before.update(
                            idx as int,
                            slots@[j as int].dv()->Req_0,
                        ));
                    }
                },
                Slot::Opt(o) => match o {
                    Some(v) => {
                        let _old = fields.remove(idx);
                        fields.insert(idx, v.dup());
                        proof {
                            assert(dv_values(fields@) =~= before.update(
                                idx as int,
                                slots@[j as int].dv()->Opt_0->0,
                            ));
                        }
                    },
                    None => {},
                },
                Slot::Sub(subp) => match &sp.form {
                    SlotForm::Sub(nested) => {
                        let cur = fields.remove(idx);
                        match cur {
                            Value::Rec(mut br) => {
                                apply_slots(&nested.slots, &mut br.fields, &subp.slots);
                                fields.insert(idx, Value::Rec(br));
                                proof {
                                    assert(dv_values(fields@) =~= before.update(
                                        idx as int,
                                        ValueM::Rec(
                                            spec_merge(
                                                nested.slots@,
                                                before[idx as int]->Rec_0,
                                                dv_slots(subp.slots@),
                                                0,
                                            ),
                                        ),
                                    ));
                                }
                            },
                            other => {
                                fields.insert(idx, other);
                                proof {
                                    assert(dv_values(fields@) =~= before);
                                }
                            },
                        }
                    },
                    _ => {},
                },
            }
        }
        proof {
            assert(dv_values(fields@) =~= apply_slot(sps@[j as int], before, pv[j as int]));
        }
    }
    proof {
        assert(dv_values(fields@) == spec_merge(sps@, dv_values(fields@), pv, n as int));
    }
}

impl Record {
    /// Takes the partial's snapshot and applies it: every value the
    /// snapshot holds overwrites the corresponding field, empty optional
    /// slots change nothing, and flattened nested partials merge
    /// recursively. Afterwards the partial is Clean.
    pub fn patch(&mut self, ps: &PartialSchema, rhs: &mut Partial)
        ensures
            final(rhs).dv() == spec_cleared(old(rhs).dv()),
            !spec_modified(final(rhs).dv()),
            final(self).dv() == spec_merge(ps.slots@, old(self).dv(), old(rhs).dv(), 0),
    {
        let snap = rhs.take();
        apply_slots(&ps.slots, &mut self.fields, &snap.slots);
    }
}

/// Patch convergence: after merging a well-formed partial of a derived
/// partial schema into a well-formed record, the field of every required
/// slot and of every present optional slot holds that slot's value, the
/// field of every empty optional slot is unchanged, the field of every
/// nested slot holds the recursive merge, and every skipped field (which
/// has no slot at all) is unchanged. Together with `patch`'s own
/// postconditions — the record becomes this merge and the partial is left
/// Clean — this is the convergence law for `patch`.
pub proof fn lemma_patch_convergence(
    s: RecordSchema,
    ps: PartialSchema,
    rv: Seq<ValueM>,
    pv: Seq<SlotM>,
)
    requires
        derives_to(s, ps),
        wf_record(s, rv),
        wf_partial(s, ps, pv),
    ensures
        forall|j: int|
            0 <= j < ps.slots@.len() ==> {
                let k = (#[trigger] ps.slots@[j]).index as int;
                let out = spec_merge(ps.slots@, rv, pv, 0);
                match pv[j] {
                    SlotM::Req(v) => out[k] == v,
                    SlotM::Opt(o) => match o {
                        Some(v) => out[k] == v,
                        None => out[k] == rv[k],
                    },
                    SlotM::Sub(ss) => match ps.slots@[j].form {
                        SlotForm::Sub(nested) => out[k] == (if rv[k] is Rec {
                            ValueM::Rec(spec_merge(nested.slots@, rv[k]->Rec_0, ss, 0))
                        } else {
                            rv[k]
                        }),
                        _ => out[k] == rv[k],
                    },
                }
            },
        forall|k: int|
            0 <= k < s.fields@.len() && (#[trigger] s.fields@[k]).skip ==> spec_merge(
                ps.slots@,
                rv,
                pv,
                0,
            )[k] == rv[k],
{
    let sps = ps.slots@;
    assert forall|m: int| 0 <= m < sps.len() implies (#[trigger] sps[m]).index < rv.len() by {
        assert(slot_matches(s, sps[m]));
    }
    assert forall|j: int| 0 <= j < sps.len() implies {
        let k = (#[trigger] sps[j]).index as int;
        let out = spec_merge(sps, rv, pv, 0);
        match pv[j] {
            SlotM::Req(v) => out[k] == v,
            SlotM::Opt(o) => match o {
                Some(v) => out[k] == v,
                None => out[k] == rv[k],
            },
            SlotM::Sub(ss) => match sps[j].form {
                SlotForm::Sub(nested) => out[k] == (if rv[k] is Rec {
                    ValueM::Rec(spec_merge(nested.slots@, rv[k]->Rec_0, ss, 0))
                } else {
                    rv[k]
                }),
                _ => out[k] == rv[k],
            },
        }
    } by {
        lemma_merge_slot_effect(sps, rv, pv, 0, j);
    }
    assert forall|k: int|
        0 <= k < s.fields@.len() && (#[trigger] s.fields@[k]).skip implies spec_merge(
        sps,
        rv,
        pv,
        0,
    )[k] == rv[k] by {
        assert forall|m: int| 0 <= m < sps.len() implies (#[trigger] sps[m]).index != k by {
            assert(slot_matches(s, sps[m]));
            assert(eligible(s.fields@[sps[m].index as int]));
        }
        lemma_merge_untouched(sps, rv, pv, 0, k);
    }
}

} // verus!
