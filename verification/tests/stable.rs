//! Behaviour of records without a wire codec: modification tracking and
//! `take` alone, on schemas with no identity byte and no backend.

use wopt::derive::derive_partial;
use wopt::schema::{FieldKind, FieldSpec, LayoutKind, RecordSchema};
use wopt::values::{make_default_partial, Partial, Slot, Value};

fn f32v(x: f32) -> Value {
    Value::Fixed(x.to_le_bytes().to_vec())
}

fn strv(x: &str) -> Value {
    Value::Buf(x.as_bytes().to_vec())
}

fn field(name: &str, kind: FieldKind, required: bool) -> FieldSpec {
    FieldSpec { name: name.to_string(), kind, required, skip: false }
}

fn caps() -> Vec<String> {
    vec!["Debug".to_string(), "Default".to_string(), "PartialEq".to_string()]
}

#[test]
fn test_named() {
    let s = RecordSchema {
        name: "ExampleNamed".to_string(),
        identity: None,
        layout: LayoutKind::Named,
        fields: vec![
            field("a", FieldKind::Fixed(1), false),
            field("b", FieldKind::Fixed(4), true),
            field("c", FieldKind::Buffer(0), false),
        ],
        backends: vec![],
        capabilities: caps(),
    };
    let ps = derive_partial(&s).unwrap();
    let mut ex_opt = make_default_partial(&s, &ps);
    assert!(!ex_opt.is_modified());

    let b = 420.0;
    ex_opt.slots[1] = Slot::Req(f32v(b));
    ex_opt.slots[2] = Slot::Opt(Some(strv("very cool kanye")));
    assert!(ex_opt.is_modified());

    assert_eq!(
        ex_opt,
        Partial {
            slots: vec![
                Slot::Opt(None),
                Slot::Req(f32v(b)),
                Slot::Opt(Some(strv("very cool kanye"))),
            ],
        }
    );

    _ = ex_opt.take();
    assert!(!ex_opt.is_modified())
}

#[test]
fn test_unnamed() {
    let s = RecordSchema {
        name: "ExampleUnnamed".to_string(),
        identity: None,
        layout: LayoutKind::Positional,
        fields: vec![field("0", FieldKind::Fixed(4), false)],
        backends: vec![],
        capabilities: caps(),
    };
    let ps = derive_partial(&s).unwrap();
    let mut ex_opt = make_default_partial(&s, &ps);
    assert!(!ex_opt.is_modified());

    ex_opt.slots[0] = Slot::Opt(Some(f32v(420.0)));
    assert!(ex_opt.is_modified());

    assert_eq!(ex_opt, Partial { slots: vec![Slot::Opt(Some(f32v(420.0)))] });

    _ = ex_opt.take();
    assert!(!ex_opt.is_modified())
}
