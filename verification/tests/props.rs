//! Properties of the derivation engine on concrete values: round trips,
//! idempotent take, patch convergence, the identity offset and bit order
//! laws, the schema errors, decode failures, the derived names and the
//! layout sizes.

use wopt::derive::{derive_partial, SlotForm};
use wopt::layout::{partial_unpadded_size, unpadded_size};
use wopt::schema::{
    classify_identity, validate_schema, CodecBackend, FieldKind, FieldSpec, LayoutKind,
    MessageKind, RecordSchema, SchemaError,
};
use wopt::values::{make_default_partial, Partial, Record, Slot, Value};
use wopt::wire::{
    decode_partial_with, deserialize_partial, deserialize_record, serialize_partial,
    serialize_record, CodecError,
};

fn u8v(x: u8) -> Value {
    Value::Fixed(vec![x])
}

fn f32v(x: f32) -> Value {
    Value::Fixed(x.to_le_bytes().to_vec())
}

fn i32v(x: i32) -> Value {
    Value::Fixed(x.to_le_bytes().to_vec())
}

fn field(name: &str, kind: FieldKind, required: bool) -> FieldSpec {
    FieldSpec { name: name.to_string(), kind, required, skip: false }
}

fn schema(name: &str, id: u8, fields: Vec<FieldSpec>) -> RecordSchema {
    RecordSchema {
        name: name.to_string(),
        identity: Some(id),
        layout: LayoutKind::Named,
        fields,
        backends: vec![CodecBackend::FixedWidthPod],
        capabilities: vec!["Debug".to_string()],
    }
}

fn scenario_schema() -> RecordSchema {
    schema(
        "Scenario",
        1,
        vec![
            field("a", FieldKind::Fixed(1), false),
            field("b", FieldKind::Fixed(4), true),
            field("c", FieldKind::Fixed(4), false),
        ],
    )
}

#[test]
fn scenario_full_bytes_exact() {
    let s = scenario_schema();
    let ex = Record { fields: vec![u8v(69), f32v(420.0), i32v(-2048)] };
    let bytes = serialize_record(&s, &ex);
    assert_eq!(bytes, vec![1u8, 69, 0, 0, 210, 67, 0, 248, 255, 255]);
}

#[test]
fn scenario_partial_bytes_exact() {
    let s = scenario_schema();
    let ps = derive_partial(&s).unwrap();
    let p = Partial {
        slots: vec![Slot::Opt(Some(u8v(69))), Slot::Req(f32v(420.0)), Slot::Opt(None)],
    };
    let bytes = serialize_partial(&s, &ps, &p);
    assert_eq!(bytes, vec![129u8, 1, 69, 0, 0, 210, 67]);
}

#[test]
fn unit_record_both_encodings() {
    let s = RecordSchema {
        name: "Zero".to_string(),
        identity: Some(0),
        layout: LayoutKind::Unit,
        fields: vec![],
        backends: vec![CodecBackend::FixedWidthPod],
        capabilities: vec![],
    };
    let ps = derive_partial(&s).unwrap();
    assert_eq!(serialize_record(&s, &Record { fields: vec![] }), vec![0u8]);
    assert_eq!(
        serialize_partial(&s, &ps, &Partial { slots: vec![] }),
        vec![128u8]
    );
    let back = deserialize_record(&s, &[0u8]).unwrap();
    assert_eq!(back, Record { fields: vec![] });
    let pback = deserialize_partial(&s, &ps, &[128u8]).unwrap();
    assert_eq!(pback, Partial { slots: vec![] });
}

#[test]
fn full_round_trip_through_messages() {
    let s = scenario_schema();
    let ex = Record { fields: vec![u8v(7), f32v(-1.5), i32v(123456)] };
    let bytes = serialize_record(&s, &ex);
    let back = deserialize_record(&s, &bytes).unwrap();
    assert_eq!(ex, back);
}

#[test]
fn partial_round_trip_through_messages() {
    let s = scenario_schema();
    let ps = derive_partial(&s).unwrap();
    let p = Partial {
        slots: vec![Slot::Opt(None), Slot::Req(f32v(2.5)), Slot::Opt(Some(i32v(-7)))],
    };
    let bytes = serialize_partial(&s, &ps, &p);
    let back = deserialize_partial(&s, &ps, &bytes).unwrap();
    assert_eq!(p, back);
}

#[test]
fn nested_buffer_round_trip() {
    let inner = schema(
        "Inner",
        9,
        vec![
            field("x", FieldKind::Buffer(8), false),
            field("y", FieldKind::Fixed(2), true),
        ],
    );
    let s = schema(
        "Outer",
        10,
        vec![
            field("head", FieldKind::Fixed(1), false),
            field("body", FieldKind::Record(Box::new(inner)), false),
        ],
    );
    let ps = derive_partial(&s).unwrap();
    let rec = Record {
        fields: vec![
            u8v(3),
            Value::Rec(Box::new(Record {
                fields: vec![Value::Buf(vec![9, 8, 7]), Value::Fixed(vec![1, 2])],
            })),
        ],
    };
    let bytes = serialize_record(&s, &rec);
    assert_eq!(bytes, vec![10u8, 3, 3, 0, 9, 8, 7, 1, 2]);
    let back = deserialize_record(&s, &bytes).unwrap();
    assert_eq!(rec, back);

    let p = Partial {
        slots: vec![
            Slot::Opt(None),
            Slot::Sub(Box::new(Partial {
                slots: vec![Slot::Opt(Some(Value::Buf(vec![5]))), Slot::Req(Value::Fixed(vec![0, 1]))],
            })),
        ],
    };
    let pbytes = serialize_partial(&s, &ps, &p);
    assert_eq!(pbytes, vec![138u8, 2, 1, 1, 0, 5, 0, 1]);
    let pback = deserialize_partial(&s, &ps, &pbytes).unwrap();
    assert_eq!(p, pback);
}

#[test]
fn take_on_clean_partial_is_idempotent() {
    let s = scenario_schema();
    let ps = derive_partial(&s).unwrap();
    let mut p = make_default_partial(&s, &ps);
    assert!(!p.is_modified());
    let before = make_default_partial(&s, &ps);
    let snap = p.take();
    assert_eq!(snap, before);
    assert_eq!(p, before);
    assert!(!p.is_modified());
}

#[test]
fn patch_applies_present_and_keeps_absent() {
    let s = scenario_schema();
    let ps = derive_partial(&s).unwrap();
    let mut rec = Record { fields: vec![u8v(10), f32v(1.0), i32v(20)] };
    let mut p = Partial {
        slots: vec![Slot::Opt(Some(u8v(99))), Slot::Req(f32v(3.5)), Slot::Opt(None)],
    };
    rec.patch(&ps, &mut p);
    assert!(!p.is_modified());
    assert_eq!(rec, Record { fields: vec![u8v(99), f32v(3.5), i32v(20)] });
}

#[test]
fn identity_offset_over_the_range() {
    for n in [0u8, 1, 63, 127] {
        let s = schema("R", n, vec![field("a", FieldKind::Fixed(1), false)]);
        let ps = derive_partial(&s).unwrap();
        assert_eq!(ps.identity, Some(n + 128));
    }
}

#[test]
fn bit_order_follows_declaration_order() {
    // Five optional slots; the first, third and fifth are present, so bits
    // 0, 2 and 4 are set: mask 0b10101 = 21.
    let s = schema(
        "Bits",
        6,
        vec![
            field("p", FieldKind::Fixed(1), false),
            field("q", FieldKind::Fixed(1), false),
            field("r", FieldKind::Fixed(1), false),
            field("s", FieldKind::Fixed(1), false),
            field("t", FieldKind::Fixed(1), false),
        ],
    );
    let ps = derive_partial(&s).unwrap();
    let p = Partial {
        slots: vec![
            Slot::Opt(Some(u8v(1))),
            Slot::Opt(None),
            Slot::Opt(Some(u8v(2))),
            Slot::Opt(None),
            Slot::Opt(Some(u8v(3))),
        ],
    };
    let bytes = serialize_partial(&s, &ps, &p);
    assert_eq!(bytes, vec![134u8, 21, 1, 2, 3]);
}

#[test]
fn required_slots_occupy_no_bit() {
    let s = schema(
        "Mix",
        7,
        vec![
            field("p", FieldKind::Fixed(1), true),
            field("q", FieldKind::Fixed(1), false),
        ],
    );
    let ps = derive_partial(&s).unwrap();
    let p = Partial { slots: vec![Slot::Req(u8v(8)), Slot::Opt(Some(u8v(9)))] };
    // The optional slot is the first (and only) bit, although it is the
    // second slot.
    assert_eq!(serialize_partial(&s, &ps, &p), vec![135u8, 1, 8, 9]);
}

#[test]
fn schema_error_required_and_skip() {
    let mut s = scenario_schema();
    s.fields[1].skip = true;
    assert!(matches!(
        derive_partial(&s),
        Err(SchemaError::RequiredAndSkipConflict)
    ));
}

#[test]
fn schema_error_empty_record() {
    let s = RecordSchema {
        name: "AllSkipped".to_string(),
        identity: Some(1),
        layout: LayoutKind::Named,
        fields: vec![FieldSpec {
            name: "a".to_string(),
            kind: FieldKind::Fixed(1),
            required: false,
            skip: true,
        }],
        backends: vec![],
        capabilities: vec![],
    };
    assert!(matches!(derive_partial(&s), Err(SchemaError::EmptyRecord)));
}

#[test]
fn schema_error_unit_with_fields() {
    let mut s = scenario_schema();
    s.layout = LayoutKind::Unit;
    assert_eq!(validate_schema(&s), Err(SchemaError::UnitWithFields));
}

#[test]
fn schema_error_conflicting_backends() {
    let mut s = scenario_schema();
    s.backends = vec![CodecBackend::FixedWidthPod, CodecBackend::CustomPair];
    assert_eq!(validate_schema(&s), Err(SchemaError::ConflictingBackends));
}

#[test]
fn schema_error_missing_identity() {
    let mut s = scenario_schema();
    s.identity = None;
    assert!(matches!(derive_partial(&s), Err(SchemaError::MissingIdentityByte)));
}

#[test]
fn schema_error_identity_out_of_range() {
    let mut s = scenario_schema();
    s.identity = Some(200);
    assert!(matches!(derive_partial(&s), Err(SchemaError::IdentityOutOfRange)));
}

#[test]
fn schema_error_too_many_optional_slots() {
    let mut fields = Vec::new();
    for i in 0..129 {
        fields.push(field(&format!("f{}", i), FieldKind::Fixed(1), false));
    }
    let s = schema("Wide", 1, fields);
    assert!(matches!(derive_partial(&s), Err(SchemaError::TooManyOptionalSlots)));
}

#[test]
fn no_identity_needed_without_wire_codec() {
    let mut s = scenario_schema();
    s.identity = None;
    s.backends = vec![];
    let ps = derive_partial(&s).unwrap();
    assert_eq!(ps.identity, None);
}

#[test]
fn decode_error_truncated() {
    let s = scenario_schema();
    // The identity byte matches but the payload is one byte short.
    assert_eq!(
        deserialize_record(&s, &[1u8, 69, 0, 0, 210, 67, 0, 248, 255]),
        Err(CodecError::Truncated)
    );
}

#[test]
fn decode_error_unexpected_identity() {
    let s = scenario_schema();
    assert_eq!(
        deserialize_record(&s, &[2u8, 69, 0, 0, 210, 67, 0, 248, 255, 255]),
        Err(CodecError::UnexpectedIdentity)
    );
    assert_eq!(deserialize_record(&s, &[]), Err(CodecError::UnexpectedIdentity));
}

#[test]
fn decode_error_truncated_buffer() {
    let s = schema("Buf", 3, vec![field("b", FieldKind::Buffer(4), false)]);
    // The length prefix claims four bytes but only two follow.
    assert_eq!(
        deserialize_record(&s, &[3u8, 4, 0, 1, 2]),
        Err(CodecError::Truncated)
    );
}

#[test]
fn decode_error_truncated_partial_mask() {
    let s = scenario_schema();
    let ps = derive_partial(&s).unwrap();
    // Nothing follows the identity byte, so the mask itself is missing.
    assert_eq!(
        deserialize_partial(&s, &ps, &[129u8]),
        Err(CodecError::Truncated)
    );
}

#[test]
fn derived_names_carry_the_opt_suffix() {
    let s = scenario_schema();
    let ps = derive_partial(&s).unwrap();
    assert_eq!(ps.name, "ScenarioOpt".to_string());
}

#[test]
fn derived_flags_use_pascal_case_names() {
    let s = schema(
        "Casing",
        2,
        vec![
            field("my_field", FieldKind::Fixed(1), false),
            field("other", FieldKind::Fixed(1), true),
        ],
    );
    let ps = derive_partial(&s).unwrap();
    assert_eq!(ps.slots[0].flag, Some("MyField".to_string()));
    assert_eq!(ps.slots[1].flag, None);
    assert!(matches!(ps.slots[1].form, SlotForm::Required));
}

#[test]
fn derived_flags_use_prefixed_indices() {
    let s = RecordSchema {
        name: "Tuple".to_string(),
        identity: Some(2),
        layout: LayoutKind::Positional,
        fields: vec![
            field("0", FieldKind::Fixed(1), false),
            field("1", FieldKind::Fixed(2), true),
            field("2", FieldKind::Fixed(4), false),
        ],
        backends: vec![CodecBackend::FixedWidthPod],
        capabilities: vec![],
    };
    let ps = derive_partial(&s).unwrap();
    assert_eq!(ps.slots[0].flag, Some("F0".to_string()));
    assert_eq!(ps.slots[1].flag, None);
    assert_eq!(ps.slots[2].flag, Some("F2".to_string()));
    assert_eq!(ps.slots[2].index, 2);
}

#[test]
fn skipped_fields_have_no_slot() {
    let mut s = scenario_schema();
    s.fields[1].required = false;
    s.fields[1].skip = true;
    let ps = derive_partial(&s).unwrap();
    assert_eq!(ps.slots.len(), 2);
    assert_eq!(ps.slots[0].index, 0);
    assert_eq!(ps.slots[1].index, 2);
}

#[test]
fn unpadded_sizes() {
    let s = scenario_schema();
    let ps = derive_partial(&s).unwrap();
    assert_eq!(unpadded_size(&s), 9);
    assert_eq!(partial_unpadded_size(&s, &ps), 9);

    let flat = schema(
        "Flat",
        4,
        vec![
            field("a", FieldKind::Fixed(1), false),
            field("b", FieldKind::Record(Box::new(scenario_schema())), false),
            field("c", FieldKind::Fixed(4), false),
        ],
    );
    let flat_ps = derive_partial(&flat).unwrap();
    assert_eq!(unpadded_size(&flat), 14);
    // The nested slot counts its own mask byte on top of its payload.
    assert_eq!(partial_unpadded_size(&flat, &flat_ps), 15);
}

#[test]
fn classify_identity_splits_at_128() {
    assert_eq!(classify_identity(5), (MessageKind::Full, 5));
    assert_eq!(classify_identity(127), (MessageKind::Full, 127));
    assert_eq!(classify_identity(128), (MessageKind::Partial, 0));
    assert_eq!(classify_identity(133), (MessageKind::Partial, 5));
}

#[test]
fn unmodified_nested_partial_is_dropped_from_the_wire() {
    let s = schema(
        "Outer",
        11,
        vec![
            field("a", FieldKind::Fixed(1), false),
            field("b", FieldKind::Record(Box::new(scenario_schema())), false),
        ],
    );
    let ps = derive_partial(&s).unwrap();
    let clean_sub = Partial {
        slots: vec![Slot::Opt(None), Slot::Req(f32v(0.0)), Slot::Opt(None)],
    };
    let p = Partial {
        slots: vec![Slot::Opt(Some(u8v(1))), Slot::Sub(Box::new(clean_sub))],
    };
    // Only bit 0 is set: the nested partial carries no change, so its bit
    // stays clear and its payload (even the required slot) is not written.
    let bytes = serialize_partial(&s, &ps, &p);
    assert_eq!(bytes, vec![139u8, 1, 1]);
    // Decoding gives the nested partial back in its default state: the
    // required slot's value was not on the wire.
    let back = deserialize_partial(&s, &ps, &bytes).unwrap();
    let default_sub = Partial {
        slots: vec![Slot::Opt(None), Slot::Req(f32v(0.0)), Slot::Opt(None)],
    };
    assert_eq!(
        back,
        Partial { slots: vec![Slot::Opt(Some(u8v(1))), Slot::Sub(Box::new(default_sub))] }
    );
}
