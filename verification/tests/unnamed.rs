//! Behaviour of positional (tuple-style) records: modification tracking,
//! patching, and both wire encodings, including flattened nested partials.

use wopt::derive::{derive_partial, PartialSchema};
use wopt::schema::{CodecBackend, FieldKind, FieldSpec, LayoutKind, RecordSchema};
use wopt::values::{make_default_partial, Partial, Record, Slot, Value};
use wopt::wire::{decode_partial_with, decode_record_payload, serialize_partial, serialize_record};

const A: u8 = 69;
const B: f32 = 420.0;
const C: i32 = -2048;

fn u8v(x: u8) -> Value {
    Value::Fixed(vec![x])
}

fn f32v(x: f32) -> Value {
    Value::Fixed(x.to_le_bytes().to_vec())
}

fn i32v(x: i32) -> Value {
    Value::Fixed(x.to_le_bytes().to_vec())
}

fn field(name: &str, kind: FieldKind, required: bool) -> FieldSpec {
    FieldSpec { name: name.to_string(), kind, required, skip: false }
}

fn caps() -> Vec<String> {
    vec!["Debug".to_string(), "Default".to_string(), "PartialEq".to_string()]
}

fn example_unnamed() -> RecordSchema {
    RecordSchema {
        name: "ExampleUnnamed".to_string(),
        identity: Some(1),
        layout: LayoutKind::Positional,
        fields: vec![
            field("0", FieldKind::Fixed(1), false),
            field("1", FieldKind::Fixed(4), false),
            field("2", FieldKind::Fixed(4), false),
        ],
        backends: vec![CodecBackend::FixedWidthPod],
        capabilities: caps(),
    }
}

fn example_unnamed_req() -> RecordSchema {
    RecordSchema {
        name: "ExampleUnnamedReq".to_string(),
        identity: Some(2),
        layout: LayoutKind::Positional,
        fields: vec![
            field("0", FieldKind::Fixed(1), false),
            field("1", FieldKind::Fixed(4), true),
            field("2", FieldKind::Fixed(4), false),
        ],
        backends: vec![CodecBackend::FixedWidthPod],
        capabilities: caps(),
    }
}

fn example_unnamed_with() -> RecordSchema {
    RecordSchema {
        name: "ExampleUnnamedWith".to_string(),
        identity: Some(3),
        layout: LayoutKind::Positional,
        fields: vec![
            field("0", FieldKind::Fixed(1), false),
            field("1", FieldKind::Fixed(4), false),
            field("2", FieldKind::Fixed(4), false),
        ],
        backends: vec![CodecBackend::FixedWidthPod],
        capabilities: caps(),
    }
}

fn example_unnamed_flat() -> RecordSchema {
    RecordSchema {
        name: "ExampleUnnamedFlat".to_string(),
        identity: Some(4),
        layout: LayoutKind::Positional,
        fields: vec![
            field("0", FieldKind::Fixed(1), false),
            field("1", FieldKind::Record(Box::new(example_unnamed())), false),
            field("2", FieldKind::Fixed(4), false),
        ],
        backends: vec![CodecBackend::FixedWidthPod],
        capabilities: caps(),
    }
}


fn partial_of(s: &RecordSchema) -> (PartialSchema, Partial) {
    let ps = derive_partial(s).unwrap();
    let p = make_default_partial(s, &ps);
    (ps, p)
}

fn unnamed_record() -> Record {
    Record { fields: vec![u8v(A), f32v(B), i32v(C)] }
}

#[test]
fn unnamed_test_named_stable() {
    let s = example_unnamed();
    let (ps, mut ex_opt) = partial_of(&s);
    let mut ex = unnamed_record();

    assert!(!ex_opt.is_modified());

    ex_opt.slots[0] = Slot::Opt(Some(u8v(1)));
    assert!(ex_opt.is_modified());

    ex.patch(&ps, &mut ex_opt);
    assert!(!ex_opt.is_modified());

    assert_eq!(ex, Record { fields: vec![u8v(1), f32v(B), i32v(C)] })
}

#[test]
fn unnamed_test_named_stable_req() {
    let s = example_unnamed_req();
    let (ps, mut ex_opt) = partial_of(&s);
    let mut ex = unnamed_record();

    assert!(!ex_opt.is_modified());

    ex_opt.slots[0] = Slot::Opt(Some(u8v(1)));
    ex_opt.slots[1] = Slot::Req(f32v(2.0));
    assert!(ex_opt.is_modified());

    ex.patch(&ps, &mut ex_opt);
    assert!(!ex_opt.is_modified());
    assert_eq!(ex_opt.slots[1], Slot::Req(f32v(2.0)));

    // A required slot is always specified, so the patch applies its value
    // unconditionally.
    assert_eq!(ex, Record { fields: vec![u8v(1), f32v(2.0), i32v(C)] })
}

#[test]
fn unnamed_test_named_stable_flat() {
    let s = example_unnamed_flat();
    let (ps, mut ex_opt) = partial_of(&s);
    let mut ex = Record {
        fields: vec![u8v(A), Value::Rec(Box::new(unnamed_record())), i32v(C)],
    };

    assert!(!ex_opt.is_modified());

    ex_opt.slots[0] = Slot::Opt(Some(u8v(1)));
    ex_opt.slots[1] = Slot::Sub(Box::new(Partial {
        slots: vec![Slot::Opt(None), Slot::Opt(None), Slot::Opt(Some(i32v(-3)))],
    }));
    assert!(ex_opt.is_modified());

    ex.patch(&ps, &mut ex_opt);
    assert!(!ex_opt.is_modified());

    assert_eq!(
        ex,
        Record {
            fields: vec![
                u8v(1),
                Value::Rec(Box::new(Record { fields: vec![u8v(A), f32v(B), i32v(-3)] })),
                i32v(C),
            ],
        }
    )
}

#[test]
fn unnamed_test_named_bytemuck_serialize() {
    let s = example_unnamed();
    let ex = unnamed_record();
    let serialized = serialize_record(&s, &ex);
    assert_eq!(vec![1u8, 69, 0, 0, 210, 67, 0, 248, 255, 255], serialized);
}

#[test]
fn unnamed_test_named_bytemuck_serialize_with() {
    let s = example_unnamed_with();
    let ex = unnamed_record();
    let serialized = serialize_record(&s, &ex);
    assert_eq!(vec![3u8, 69, 0, 0, 210, 67, 0, 248, 255, 255], serialized);
}

#[test]
fn unnamed_test_named_bytemuck_serialize_opt() {
    let s = example_unnamed();
    let (ps, _) = partial_of(&s);
    let ex = Partial {
        slots: vec![Slot::Opt(Some(u8v(A))), Slot::Opt(None), Slot::Opt(Some(i32v(C)))],
    };
    let serialized = serialize_partial(&s, &ps, &ex);
    assert_eq!(vec![129u8, 5, 69, 0, 248, 255, 255], serialized);
}

#[test]
fn unnamed_test_named_bytemuck_serialize_req() {
    let s = example_unnamed_req();
    let ex = unnamed_record();
    let serialized = serialize_record(&s, &ex);
    assert_eq!(vec![2u8, 69, 0, 0, 210, 67, 0, 248, 255, 255], serialized);
}

#[test]
fn unnamed_test_named_bytemuck_serialize_req_opt() {
    let s = example_unnamed_req();
    let (ps, _) = partial_of(&s);
    let ex = Partial {
        slots: vec![Slot::Opt(Some(u8v(A))), Slot::Req(f32v(B)), Slot::Opt(None)],
    };
    let serialized = serialize_partial(&s, &ps, &ex);
    assert_eq!(vec![130u8, 1, 69, 0, 0, 210, 67], serialized);
}

#[test]
fn unnamed_test_named_bytemuck_deserialize() {
    let s = example_unnamed();
    let ex = unnamed_record();
    let bytes = serialize_record(&s, &ex);
    let (deserialized, _) = decode_record_payload(&s, &bytes[1..], 0).unwrap();
    assert_eq!(ex, deserialized);
}

#[test]
fn unnamed_test_named_bytemuck_deserialize_with() {
    let s = example_unnamed_with();
    let ex = unnamed_record();
    let bytes = serialize_record(&s, &ex);
    let (deserialized, _) = decode_record_payload(&s, &bytes[1..], 0).unwrap();
    assert_eq!(ex, deserialized);
}

#[test]
fn unnamed_test_named_bytemuck_deserialize_opt() {
    let s = example_unnamed();
    let (ps, _) = partial_of(&s);
    let ex = Partial {
        slots: vec![Slot::Opt(Some(u8v(A))), Slot::Opt(None), Slot::Opt(Some(i32v(C)))],
    };
    let bytes = serialize_partial(&s, &ps, &ex);
    let (deserialized, _) = decode_partial_with(&s, &ps, &bytes[1..], 0).unwrap();
    assert_eq!(ex, deserialized);
}

#[test]
fn unnamed_test_named_bytemuck_deserialize_req() {
    let s = example_unnamed_req();
    let ex = unnamed_record();
    let bytes = serialize_record(&s, &ex);
    let (deserialized, _) = decode_record_payload(&s, &bytes[1..], 0).unwrap();
    assert_eq!(ex, deserialized);
}

#[test]
fn unnamed_test_named_bytemuck_deserialize_req_opt() {
    let s = example_unnamed_req();
    let (ps, _) = partial_of(&s);
    let ex = Partial {
        slots: vec![Slot::Opt(Some(u8v(A))), Slot::Req(f32v(B)), Slot::Opt(None)],
    };
    let bytes = serialize_partial(&s, &ps, &ex);
    let (deserialized, _) = decode_partial_with(&s, &ps, &bytes[1..], 0).unwrap();
    assert_eq!(ex, deserialized);
}

#[test]
fn unnamed_test_named_bytemuck_serialize_flat() {
    let s = example_unnamed_flat();
    let ex = Record {
        fields: vec![u8v(A), Value::Rec(Box::new(unnamed_record())), i32v(C)],
    };
    let bytes = serialize_record(&s, &ex);
    assert_eq!(
        vec![4u8, 69, 69, 0, 0, 210, 67, 0, 248, 255, 255, 0, 248, 255, 255],
        bytes
    );
}

#[test]
fn unnamed_test_named_bytemuck_serialize_flat_opt() {
    let s = example_unnamed_flat();
    let (ps, _) = partial_of(&s);
    let ex = Partial {
        slots: vec![
            Slot::Opt(Some(u8v(A))),
            Slot::Sub(Box::new(Partial {
                slots: vec![
                    Slot::Opt(Some(u8v(A))),
                    Slot::Opt(Some(f32v(B))),
                    Slot::Opt(Some(i32v(C))),
                ],
            })),
            Slot::Opt(Some(i32v(C))),
        ],
    };
    let bytes = serialize_partial(&s, &ps, &ex);
    assert_eq!(
        vec![132u8, 7, 69, 7, 69, 0, 0, 210, 67, 0, 248, 255, 255, 0, 248, 255, 255],
        bytes
    );
}

#[test]
fn unnamed_test_named_bytemuck_deserialize_flat() {
    let s = example_unnamed_flat();
    let ex = Record {
        fields: vec![u8v(A), Value::Rec(Box::new(unnamed_record())), i32v(C)],
    };
    let bytes = serialize_record(&s, &ex);
    let (deserialized, _) = decode_record_payload(&s, &bytes[1..], 0).unwrap();
    assert_eq!(ex, deserialized);
}

#[test]
fn unnamed_test_named_bytemuck_deserialize_flat_opt() {
    let s = example_unnamed_flat();
    let (ps, _) = partial_of(&s);
    let ex = Partial {
        slots: vec![
            Slot::Opt(Some(u8v(A))),
            Slot::Sub(Box::new(Partial {
                slots: vec![
                    Slot::Opt(Some(u8v(A))),
                    Slot::Opt(Some(f32v(B))),
                    Slot::Opt(Some(i32v(C))),
                ],
            })),
            Slot::Opt(Some(i32v(C))),
        ],
    };
    let bytes = serialize_partial(&s, &ps, &ex);
    let (deserialized, _) = decode_partial_with(&s, &ps, &bytes[1..], 0).unwrap();
    assert_eq!(ex, deserialized);
}
