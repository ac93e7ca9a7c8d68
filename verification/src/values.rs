//! Runtime instances of records and partials, and their mathematical models.
//!
//! A record instance owns one value per field of its schema; a partial
//! instance owns one slot per slot of its partial schema. Values are held as
//! plain bytes: a fixed-width field's value is its in-memory bit pattern,
//! least-significant byte first, so the codec and the merge engine can be
//! stated byte-exactly without caring which host type produced the bytes.
//!
//! Contracts speak about the ghost models `ValueM` and `SlotM`, reached
//! through the deep views `Value::dv`, `Record::dv`, `Slot::dv` and
//! `Partial::dv`.

use vstd::prelude::*;

use crate::derive::{PartialSchema, SlotForm, SlotSpec};
use crate::schema::{FieldKind, RecordSchema};

verus! {

/// One field value of a record instance.
#[derive(Debug)]
pub enum Value {
    /// The bit pattern of a fixed-width value, least-significant byte first.
    Fixed(Vec<u8>),
    /// A custom-codec byte buffer.
    Buf(Vec<u8>),
    /// A full nested record value.
    Rec(Box<Record>),
}

/// A record instance: one value per field, in declaration order.
#[derive(Debug)]
pub struct Record {
    pub fields: Vec<Value>,
}

/// One slot of a partial instance.
#[derive(Debug)]
pub enum Slot {
    /// A required slot: always carries a value.
    Req(Value),
    /// An optional slot: carries a value or is empty.
    Opt(Option<Value>),
    /// A flattened nested partial.
    Sub(Box<Partial>),
}

/// A partial instance: one slot per slot of the partial schema, in order.
#[derive(Debug)]
pub struct Partial {
    pub slots: Vec<Slot>,
}

/// The model of a field value.
#[verifier::ext_equal]
pub ghost enum ValueM {
    Fixed(Seq<u8>),
    Buf(Seq<u8>),
    Rec(Seq<ValueM>),
}

/// The model of a slot.
#[verifier::ext_equal]
pub ghost enum SlotM {
    Req(ValueM),
    Opt(Option<ValueM>),
    Sub(Seq<SlotM>),
}

impl Value {
    /// The model of this value.
    pub open spec fn dv(self) -> ValueM
        decreases self,
    {
        match self {
            Value::Fixed(b) => ValueM::Fixed(b@),
            Value::Buf(b) => ValueM::Buf(b@),
            Value::Rec(r) => ValueM::Rec(dv_values(r.fields@)),
        }
    }
}

/// The models of a sequence of values.
pub open spec fn dv_values(vs: Seq<Value>) -> Seq<ValueM>
    decreases vs,
{
    Seq::new(
        vs.len(),
        |i: int|
            if 0 <= i < vs.len() {
                vs[i].dv()
            } else {
                ValueM::Fixed(Seq::empty())
            },
    )
}

impl Record {
    /// The model of this record instance.
    pub open spec fn dv(self) -> Seq<ValueM> {
        dv_values(self.fields@)
    }
}

impl Slot {
    /// The model of this slot.
    pub open spec fn dv(self) -> SlotM
        decreases self,
    {
        match self {
            Slot::Req(v) => SlotM::Req(v.dv()),
            Slot::Opt(o) => SlotM::Opt(
                match o {
                    Some(v) => Some(v.dv()),
                    None => None,
                },
            ),
            Slot::Sub(p) => SlotM::Sub(dv_slots(p.slots@)),
        }
    }
}

/// The models of a sequence of slots.
pub open spec fn dv_slots(ss: Seq<Slot>) -> Seq<SlotM>
    decreases ss,
{
    Seq::new(
        ss.len(),
        |i: int|
            if 0 <= i < ss.len() {
                ss[i].dv()
            } else {
                SlotM::Opt(None)
            },
    )
}

impl Partial {
    /// The model of this partial instance.
    pub open spec fn dv(self) -> Seq<SlotM> {
        dv_slots(self.slots@)
    }
}

/// The largest byte length a custom-codec buffer may have: its wire form
/// carries a two-byte length prefix.
pub const MAX_BUFFER_LEN: usize = 65535;

/// A model value fits a field kind: a fixed-width value has exactly the
/// declared width, a buffer fits its length prefix, and a nested record
/// value fits the nested schema.
pub open spec fn wf_value(k: FieldKind, v: ValueM) -> bool
    decreases k, 0int,
{
    match k {
        FieldKind::Fixed(w) => v matches ValueM::Fixed(b) && b.len() == w,
        FieldKind::Buffer(_) => v matches ValueM::Buf(b) && b.len() <= MAX_BUFFER_LEN as nat,
        FieldKind::Record(n) => v matches ValueM::Rec(fs) && wf_record(*n, fs),
    }
}

/// A model record fits a record schema: one well-formed value per field.
pub open spec fn wf_record(s: RecordSchema, fields: Seq<ValueM>) -> bool
    decreases s, 1int,
{
    &&& fields.len() == s.fields@.len()
    &&& forall|i: int|
        0 <= i < fields.len() ==> wf_value((#[trigger] s.fields@[i]).kind, fields[i])
}

/// A model slot fits its slot specification, relative to the record schema
/// the partial schema was derived from.
pub open spec fn wf_slot(s: RecordSchema, sp: SlotSpec, sl: SlotM) -> bool
    decreases s, 2int,
{
    &&& sp.index < s.fields@.len()
    &&& {
        let k = s.fields@[sp.index as int].kind;
        match sp.form {
            SlotForm::Required => sl matches SlotM::Req(v) && wf_value(k, v),
            SlotForm::Optional => sl matches SlotM::Opt(o) && (o matches Some(v) ==> wf_value(
                k,
                v,
            )),
            SlotForm::Sub(ps) => {
                &&& sl matches SlotM::Sub(ss)
                &&& crate::layout::n_opt_slots(ps.slots@, 0) <= 128
                &&& (k matches FieldKind::Record(n) && wf_partial(*n, *ps, sl->Sub_0))
            },
        }
    }
}

/// A model partial fits a partial schema: one well-formed slot per slot
/// specification.
pub open spec fn wf_partial(s: RecordSchema, ps: PartialSchema, slots: Seq<SlotM>) -> bool
    decreases s, 3int,
{
    &&& slots.len() == ps.slots@.len()
    &&& forall|j: int|
        0 <= j < slots.len() ==> wf_slot(s, (#[trigger] ps.slots@[j]), slots[j])
}

/// The default model value of a field kind: all-zero bytes, an empty
/// buffer, or a record of default values.
pub open spec fn default_value(k: FieldKind) -> ValueM
    decreases k, 0int,
{
    match k {
        FieldKind::Fixed(w) => ValueM::Fixed(Seq::new(w as nat, |i: int| 0u8)),
        FieldKind::Buffer(_) => ValueM::Buf(Seq::empty()),
        FieldKind::Record(n) => ValueM::Rec(default_record(*n)),
    }
}

/// The default model record of a schema.
pub open spec fn default_record(s: RecordSchema) -> Seq<ValueM>
    decreases s, 1int,
{
    Seq::new(
        s.fields@.len(),
        |i: int|
            if 0 <= i < s.fields@.len() {
                default_value(s.fields@[i].kind)
            } else {
                ValueM::Fixed(Seq::empty())
            },
    )
}

/// The default (all-clean) model partial of a partial schema: required
/// slots hold default values, optional slots are empty, nested partials are
/// default in turn.
pub open spec fn default_slot(s: RecordSchema, sp: SlotSpec) -> SlotM
    decreases s, 2int,
{
    if sp.index < s.fields@.len() {
        let k = s.fields@[sp.index as int].kind;
        match sp.form {
            SlotForm::Required => SlotM::Req(default_value(k)),
            SlotForm::Optional => SlotM::Opt(None),
            SlotForm::Sub(ps) => SlotM::Sub(
                match k {
                    FieldKind::Record(n) => default_partial(*n, *ps),
                    _ => Seq::empty(),
                },
            ),
        }
    } else {
        SlotM::Opt(None)
    }
}

/// The default model partial of a partial schema.
pub open spec fn default_partial(s: RecordSchema, ps: PartialSchema) -> Seq<SlotM>
    decreases s, 3int,
{
    Seq::new(
        ps.slots@.len(),
        |j: int|
            if 0 <= j < ps.slots@.len() {
                default_slot(s, ps.slots@[j])
            } else {
                SlotM::Opt(None)
            },
    )
}

/// A default model value is well-formed for its kind.
pub proof fn lemma_default_value_wf(k: FieldKind)
    ensures
        wf_value(k, default_value(k)),
    decreases k, 1int,
{
    match k {
        FieldKind::Fixed(w) => {},
        FieldKind::Buffer(_) => {},
        FieldKind::Record(n) => {
            lemma_default_record_wf(*n);
        },
    }
}

/// A default model record is well-formed for its schema.
pub proof fn lemma_default_record_wf(s: RecordSchema)
    ensures
        wf_record(s, default_record(s)),
    decreases s, 2int,
{
    assert forall|i: int| 0 <= i < s.fields@.len() implies wf_value(
        (#[trigger] s.fields@[i]).kind,
        default_record(s)[i],
    ) by {
        lemma_default_value_wf(s.fields@[i].kind);
    }
}

/// A byte-for-byte copy of a byte vector.
pub fn dup_bytes(src: &Vec<u8>) -> (r: Vec<u8>)
    ensures
        r@ == src@,
{
    let mut r: Vec<u8> = Vec::with_capacity(src.len());
    let n = src.len();
    for i in 0..n
        invariant
            n == src@.len(),
            r@ =~= src@.take(i as int),
    {
        r.push(src[i]);
        proof {
            assert(r@ =~= src@.take(i as int + 1));
        }
    }
    proof {
        assert(r@ =~= src@);
    }
    r
}

impl Value {
    /// An owned copy of this value, equal in model.
    pub fn dup(&self) -> (r: Value)
        ensures
            r.dv() == self.dv(),
        decreases *self,
    {
        match self {
            Value::Fixed(b) => Value::Fixed(dup_bytes(b)),
            Value::Buf(b) => Value::Buf(dup_bytes(b)),
            Value::Rec(rec) => {
                let copy = dup_record(rec);
                proof {
                    assert(Value::Rec(Box::new(copy)).dv() =~~= self.dv());
                }
                Value::Rec(Box::new(copy))
            },
        }
    }
}

/// An owned copy of a record instance, equal in model.
pub fn dup_record(r: &Record) -> (copy: Record)
    ensures
        copy.dv() == r.dv(),
    decreases *r,
{
    let mut fields: Vec<Value> = Vec::with_capacity(r.fields.len());
    let n = r.fields.len();
    for i in 0..n
        invariant
            n == r.fields@.len(),
            fields@.len() == i,
            forall|j: int| 0 <= j < i ==> (#[trigger] fields@[j]).dv() == r.fields@[j].dv(),
        decreases *r, 0int, n - i,
    {
        fields.push(r.fields[i].dup());
    }
    let copy = Record { fields };
    proof {
        assert(copy.dv() =~~= r.dv());
    }
    copy
}

/// The default value of a field kind, as a runtime value.
pub fn make_default_value(k: &FieldKind) -> (r: Value)
    ensures
        r.dv() == default_value(*k),
    decreases *k, 0int,
{
    match k {
        FieldKind::Fixed(w) => {
            let mut b: Vec<u8> = Vec::with_capacity(*w);
            let n = *w;
            for i in 0..n
                invariant
                    b@.len() == i,
                    forall|q: int| 0 <= q < i ==> b@[q] == 0u8,
            {
                b.push(0u8);
            }
            let r = Value::Fixed(b);
            proof {
                assert(r.dv() =~~= default_value(*k));
            }
            r
        },
        FieldKind::Buffer(_) => {
            let r = Value::Buf(Vec::new());
            proof {
                assert(r.dv() =~~= default_value(*k));
            }
            r
        },
        FieldKind::Record(n) => {
            let rec = make_default_record(n);
            let r = Value::Rec(Box::new(rec));
            proof {
                assert(r.dv() =~~= default_value(*k));
            }
            r
        },
    }
}

/// The default record instance of a schema: every field at its default.
pub fn make_default_record(s: &RecordSchema) -> (r: Record)
    ensures
        r.dv() == default_record(*s),
    decreases *s, 1int,
{
    let mut fields: Vec<Value> = Vec::with_capacity(s.fields.len());
    let n = s.fields.len();
    for i in 0..n
        invariant
            n == s.fields@.len(),
            fields@.len() == i,
            forall|q: int|
                0 <= q < i ==> (#[trigger] fields@[q]).dv() == default_value(s.fields@[q].kind),
        decreases *s, 0int, n - i,
    {
        fields.push(make_default_value(&s.fields[i].kind));
    }
    let r = Record { fields };
    proof {
        assert(r.dv() =~= default_record(*s));
    }
    r
}

/// The default (Clean) partial instance of a partial schema: required slots
/// at their defaults, optional slots empty, nested partials default in
/// turn.
pub fn make_default_partial(s: &RecordSchema, ps: &PartialSchema) -> (r: Partial)
    ensures
        r.dv() == default_partial(*s, *ps),
    decreases *s, 3int,
{
    let mut slots: Vec<Slot> = Vec::with_capacity(ps.slots.len());
    let n = ps.slots.len();
    for j in 0..n
        invariant
            n == ps.slots@.len(),
            slots@.len() == j,
            forall|q: int|
                0 <= q < j ==> (#[trigger] slots@[q]).dv() == default_slot(*s, ps.slots@[q]),
        decreases *s, 2int, n - j,
    {
        let sp = &ps.slots[j];
        let ghost target = default_slot(*s, ps.slots@[j as int]);
        let slot: Slot = if sp.index >= s.fields.len() {
            let sl = Slot::Opt(None);
            proof {
                assert(sl.dv() =~~= target);
            }
            sl
        } else {
            match &sp.form {
                SlotForm::Required => {
                    let sl = Slot::Req(make_default_value(&s.fields[sp.index].kind));
                    proof {
                        assert(sl.dv() =~~= target);
                    }
                    sl
                },
                SlotForm::Optional => {
                    let sl = Slot::Opt(None);
                    proof {
                        assert(sl.dv() =~~= target);
                    }
                    sl
                },
                SlotForm::Sub(nested) => match &s.fields[sp.index].kind {
                    FieldKind::Record(n2) => {
                        let sl = Slot::Sub(Box::new(make_default_partial(n2, nested)));
                        proof {
                            assert(sl.dv() =~~= target);
                        }
                        sl
                    },
                    _ => {
                        let sl = Slot::Sub(Box::new(Partial { slots: Vec::new() }));
                        proof {
                            assert(dv_slots(Seq::<Slot>::empty()) =~= Seq::<SlotM>::empty());
                            assert(sl.dv() =~~= target);
                        }
                        sl
                    },
                },
            }
        };
        proof {
            assert(slot.dv() == default_slot(*s, ps.slots@[j as int]));
        }
        slots.push(slot);
    }
    let r = Partial { slots };
    proof {
        assert(r.dv() =~= default_partial(*s, *ps));
    }
    r
}

/// Whether two byte vectors hold the same bytes.
pub fn bytes_eq(a: &Vec<u8>, b: &Vec<u8>) -> (r: bool)
    ensures
        r == (a@ == b@),
{
    if a.len() != b.len() {
        return false;
    }
    let n = a.len();
    for i in 0..n
        invariant
            n == a@.len() == b@.len(),
            forall|q: int| 0 <= q < i ==> a@[q] == b@[q],
    {
        if a[i] != b[i] {
            return false;
        }
    }
    proof {
        assert(a@ =~= b@);
    }
    true
}

/// Whether two values are equal in model.
fn value_eq(a: &Value, b: &Value) -> (r: bool)
    ensures
        r == (a.dv() == b.dv()),
    decreases *a,
{
    match (a, b) {
        (Value::Fixed(x), Value::Fixed(y)) => bytes_eq(x, y),
        (Value::Buf(x), Value::Buf(y)) => bytes_eq(x, y),
        (Value::Rec(x), Value::Rec(y)) => values_eq(&x.fields, &y.fields),
        _ => false,
    }
}

/// Whether two field-value lists are equal in model.
fn values_eq(a: &Vec<Value>, b: &Vec<Value>) -> (r: bool)
    ensures
        r == (dv_values(a@) == dv_values(b@)),
    decreases a@,
{
    if a.len() != b.len() {
        return false;
    }
    let n = a.len();
    for i in 0..n
        invariant
            n == a@.len() == b@.len(),
            forall|q: int| 0 <= q < i ==> (#[trigger] a@[q]).dv() == b@[q].dv(),
        decreases a@, 0int, n - i,
    {
        if !value_eq(&a[i], &b[i]) {
            proof {
                assert(dv_values(a@)[i as int] != dv_values(b@)[i as int]);
            }
            return false;
        }
    }
    proof {
        assert(dv_values(a@) =~= dv_values(b@));
    }
    true
}

/// Whether two slots are equal in model.
fn slot_eq(a: &Slot, b: &Slot) -> (r: bool)
    ensures
        r == (a.dv() == b.dv()),
    decreases *a,
{
    match (a, b) {
        (Slot::Req(x), Slot::Req(y)) => value_eq(x, y),
        (Slot::Opt(x), Slot::Opt(y)) => match (x, y) {
            (Some(v), Some(w)) => value_eq(v, w),
            (None, None) => true,
            _ => false,
        },
        (Slot::Sub(x), Slot::Sub(y)) => slots_eq(&x.slots, &y.slots),
        _ => false,
    }
}

/// Whether two slot lists are equal in model.
fn slots_eq(a: &Vec<Slot>, b: &Vec<Slot>) -> (r: bool)
    ensures
        r == (dv_slots(a@) == dv_slots(b@)),
    decreases a@,
{
    if a.len() != b.len() {
        return false;
    }
    let n = a.len();
    for j in 0..n
        invariant
            n == a@.len() == b@.len(),
            forall|q: int| 0 <= q < j ==> (#[trigger] a@[q]).dv() == b@[q].dv(),
        decreases a@, 0int, n - j,
    {
        if !slot_eq(&a[j], &b[j]) {
            proof {
                assert(dv_slots(a@)[j as int] != dv_slots(b@)[j as int]);
            }
            return false;
        }
    }
    proof {
        assert(dv_slots(a@) =~= dv_slots(b@));
    }
    true
}

impl PartialEq for Value {
    /// Two values are equal when their models are.
    fn eq(&self, other: &Value) -> (r: bool) {
        value_eq(self, other)
    }
}

impl vstd::std_specs::cmp::PartialEqSpecImpl for Value {
    open spec fn obeys_eq_spec() -> bool {
        true
    }

    open spec fn eq_spec(&self, other: &Value) -> bool {
        self.dv() == other.dv()
    }
}

impl PartialEq for Record {
    /// Two record instances are equal when their models are.
    fn eq(&self, other: &Record) -> (r: bool) {
        values_eq(&self.fields, &other.fields)
    }
}

impl vstd::std_specs::cmp::PartialEqSpecImpl for Record {
    open spec fn obeys_eq_spec() -> bool {
        true
    }

    open spec fn eq_spec(&self, other: &Record) -> bool {
        self.dv() == other.dv()
    }
}

impl PartialEq for Slot {
    /// Two slots are equal when their models are.
    fn eq(&self, other: &Slot) -> (r: bool) {
        slot_eq(self, other)
    }
}

impl vstd::std_specs::cmp::PartialEqSpecImpl for Slot {
    open spec fn obeys_eq_spec() -> bool {
        true
    }

    open spec fn eq_spec(&self, other: &Slot) -> bool {
        self.dv() == other.dv()
    }
}

impl PartialEq for Partial {
    /// Two partial instances are equal when their models are.
    fn eq(&self, other: &Partial) -> (r: bool) {
        slots_eq(&self.slots, &other.slots)
    }
}

impl vstd::std_specs::cmp::PartialEqSpecImpl for Partial {
    open spec fn obeys_eq_spec() -> bool {
        true
    }

    open spec fn eq_spec(&self, other: &Partial) -> bool {
        self.dv() == other.dv()
    }
}

} // verus!
