//! Behaviour of zero-field (unit) records: their full encoding is the bare
//! identity byte.

use wopt::schema::{CodecBackend, LayoutKind, RecordSchema};
use wopt::values::Record;
use wopt::wire::serialize_record;

#[test]
fn test_rkyv_serialize() {
    let s = RecordSchema {
        name: "ExampleUnit".to_string(),
        identity: Some(0),
        layout: LayoutKind::Unit,
        fields: vec![],
        backends: vec![CodecBackend::FixedWidthPod],
        capabilities: vec!["Debug".to_string()],
    };
    let serialized = serialize_record(&s, &Record { fields: vec![] });
    assert_eq!(serialized, vec![0u8])
}
