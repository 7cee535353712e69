use topic_keys::descriptor::TopicDescriptor;
use topic_keys::holder::SchemaRegistry;
use topic_keys::schema::ElementType;
use topic_keys::schema::FieldDescriptor;
use topic_keys::schema::FieldType;
use topic_keys::schema::KeyMarker;
use topic_keys::schema::PrimKind;
use topic_keys::schema::StructuredTypeSchema;
use topic_keys::value::FieldValue;
use topic_keys::value::InstanceValue;
use topic_keys::value::PrimValue;

fn field(ty: FieldType, marker: KeyMarker) -> FieldDescriptor {
    FieldDescriptor { ty, marker }
}

fn one_key_descriptor(ty: FieldType) -> TopicDescriptor {
    let schema = StructuredTypeSchema {
        type_id: 1,
        fields: vec![field(ty, KeyMarker::Key)],
    };
    TopicDescriptor::derive(SchemaRegistry::new(), &schema).unwrap()
}

fn one_value_bytes(ty: FieldType, v: FieldValue) -> Vec<u8> {
    let d = one_key_descriptor(ty);
    let inst = InstanceValue { fields: vec![v] };
    assert!(d.instance_conforms(&inst));
    d.key_bytes(&inst)
}

#[test]
fn point_scenario() {
    let schema = StructuredTypeSchema {
        type_id: 1,
        fields: vec![
            field(FieldType::Primitive(PrimKind::I32), KeyMarker::Key),
            field(FieldType::Primitive(PrimKind::I32), KeyMarker::Key),
            field(FieldType::Text, KeyMarker::NotKey),
        ],
    };
    let d = TopicDescriptor::derive(SchemaRegistry::new(), &schema).unwrap();
    assert!(d.has_key());
    assert!(!d.force_digest_key_hash());
    let inst = InstanceValue {
        fields: vec![
            FieldValue::Prim(PrimValue::I32(1)),
            FieldValue::Prim(PrimValue::I32(2)),
            FieldValue::Text(b"ignored".to_vec()),
        ],
    };
    assert_eq!(
        d.key_bytes(&inst),
        vec![0u8, 0, 0, 0, 0, 0, 0, 1, 0, 0, 0, 2]
    );
}

#[test]
fn key_bytes_is_deterministic() {
    let d = one_key_descriptor(FieldType::Primitive(PrimKind::U64));
    let a = InstanceValue {
        fields: vec![FieldValue::Prim(PrimValue::U64(0x0102030405060708))],
    };
    let b = InstanceValue {
        fields: vec![FieldValue::Prim(PrimValue::U64(0x0102030405060708))],
    };
    let first = d.key_bytes(&a);
    assert_eq!(first, d.key_bytes(&a));
    assert_eq!(first, d.key_bytes(&b));
    assert_eq!(first, vec![0u8, 0, 0, 0, 1, 2, 3, 4, 5, 6, 7, 8]);
}

#[test]
fn bool_and_small_ints() {
    assert_eq!(
        one_value_bytes(
            FieldType::Primitive(PrimKind::Bool),
            FieldValue::Prim(PrimValue::Bool(true))
        ),
        vec![0u8, 0, 0, 0, 1]
    );
    assert_eq!(
        one_value_bytes(
            FieldType::Primitive(PrimKind::Bool),
            FieldValue::Prim(PrimValue::Bool(false))
        ),
        vec![0u8, 0, 0, 0, 0]
    );
    assert_eq!(
        one_value_bytes(
            FieldType::Primitive(PrimKind::U8),
            FieldValue::Prim(PrimValue::U8(0xAB))
        ),
        vec![0u8, 0, 0, 0, 0xAB]
    );
    assert_eq!(
        one_value_bytes(
            FieldType::Primitive(PrimKind::I16),
            FieldValue::Prim(PrimValue::I16(-2))
        ),
        vec![0u8, 0, 0, 0, 0xFF, 0xFE]
    );
    assert_eq!(
        one_value_bytes(
            FieldType::Primitive(PrimKind::I64),
            FieldValue::Prim(PrimValue::I64(-1))
        ),
        vec![0u8, 0, 0, 0, 0xFF, 0xFF, 0xFF, 0xFF, 0xFF, 0xFF, 0xFF, 0xFF]
    );
}

#[test]
fn alignment_pads_with_zeros() {
    let schema = StructuredTypeSchema {
        type_id: 2,
        fields: vec![
            field(FieldType::Primitive(PrimKind::U8), KeyMarker::Key),
            field(FieldType::Primitive(PrimKind::U64), KeyMarker::Key),
        ],
    };
    let d = TopicDescriptor::derive(SchemaRegistry::new(), &schema).unwrap();
    let inst = InstanceValue {
        fields: vec![
            FieldValue::Prim(PrimValue::U8(7)),
            FieldValue::Prim(PrimValue::U64(0x0102030405060708)),
        ],
    };
    assert_eq!(
        d.key_bytes(&inst),
        vec![0u8, 0, 0, 0, 7, 0, 0, 0, 0, 0, 0, 0, 1, 2, 3, 4, 5, 6, 7, 8]
    );
}

#[test]
fn text_key_encoding() {
    assert_eq!(
        one_value_bytes(FieldType::Text, FieldValue::Text(b"ab".to_vec())),
        vec![0u8, 0, 0, 0, 0, 0, 0, 3, 97, 98, 0]
    );
    assert_eq!(
        one_value_bytes(FieldType::Text, FieldValue::Text(Vec::new())),
        vec![0u8, 0, 0, 0, 0, 0, 0, 1, 0]
    );
}

#[test]
fn sequence_key_encoding() {
    assert_eq!(
        one_value_bytes(
            FieldType::Sequence(ElementType::Primitive(PrimKind::U16)),
            FieldValue::Sequence(vec![PrimValue::U16(0x0102), PrimValue::U16(0x0304)])
        ),
        vec![0u8, 0, 0, 0, 0, 0, 0, 2, 1, 2, 3, 4]
    );
    assert_eq!(
        one_value_bytes(
            FieldType::Sequence(ElementType::Primitive(PrimKind::U64)),
            FieldValue::Sequence(vec![PrimValue::U64(1)])
        ),
        vec![0u8, 0, 0, 0, 0, 0, 0, 1, 0, 0, 0, 0, 0, 0, 0, 0, 0, 0, 0, 1]
    );
}

#[test]
fn array_key_has_no_length_prefix() {
    assert_eq!(
        one_value_bytes(
            FieldType::FixedArray(ElementType::Primitive(PrimKind::U8), 3),
            FieldValue::Array(vec![PrimValue::U8(1), PrimValue::U8(2), PrimValue::U8(3)])
        ),
        vec![0u8, 0, 0, 0, 1, 2, 3]
    );
}

#[test]
fn enum_key_encodes_as_ordinal() {
    let schema = StructuredTypeSchema {
        type_id: 3,
        fields: vec![field(FieldType::Enumeration, KeyMarker::KeyEnum)],
    };
    let d = TopicDescriptor::derive(SchemaRegistry::new(), &schema).unwrap();
    assert!(!d.force_digest_key_hash());
    let inst = InstanceValue {
        fields: vec![FieldValue::Ordinal(5)],
    };
    assert_eq!(d.key_bytes(&inst), vec![0u8, 0, 0, 0, 0, 0, 0, 5]);
}

#[test]
fn nested_key_encodes_in_place() {
    let inner = StructuredTypeSchema {
        type_id: 10,
        fields: vec![field(FieldType::Primitive(PrimKind::U32), KeyMarker::Key)],
    };
    let outer = StructuredTypeSchema {
        type_id: 11,
        fields: vec![
            field(FieldType::Named(10), KeyMarker::Key),
            field(FieldType::Primitive(PrimKind::U64), KeyMarker::NotKey),
        ],
    };
    let mut reg = SchemaRegistry::new();
    reg.register(&inner).unwrap();
    let d = TopicDescriptor::derive(reg, &outer).unwrap();
    let inst = InstanceValue {
        fields: vec![
            FieldValue::Struct(InstanceValue {
                fields: vec![FieldValue::Prim(PrimValue::U32(5))],
            }),
            FieldValue::Prim(PrimValue::U64(9)),
        ],
    };
    assert!(d.instance_conforms(&inst));
    // only the bytes of the nested key field appear, never the unmarked u64
    assert_eq!(d.key_bytes(&inst), vec![0u8, 0, 0, 0, 0, 0, 0, 5]);
}

#[test]
fn nested_alignment_continues_across_holders() {
    let inner = StructuredTypeSchema {
        type_id: 20,
        fields: vec![
            field(FieldType::Primitive(PrimKind::U8), KeyMarker::Key),
            field(FieldType::Primitive(PrimKind::U16), KeyMarker::Key),
        ],
    };
    let outer = StructuredTypeSchema {
        type_id: 21,
        fields: vec![
            field(FieldType::Primitive(PrimKind::U16), KeyMarker::Key),
            field(FieldType::Named(20), KeyMarker::Key),
            field(FieldType::Primitive(PrimKind::U8), KeyMarker::Key),
        ],
    };
    let mut reg = SchemaRegistry::new();
    reg.register(&inner).unwrap();
    let d = TopicDescriptor::derive(reg, &outer).unwrap();
    let inst = InstanceValue {
        fields: vec![
            FieldValue::Prim(PrimValue::U16(0x0102)),
            FieldValue::Struct(InstanceValue {
                fields: vec![
                    FieldValue::Prim(PrimValue::U8(3)),
                    FieldValue::Prim(PrimValue::U16(0x0405)),
                ],
            }),
            FieldValue::Prim(PrimValue::U8(6)),
        ],
    };
    // offsets after the header: u16 at 0, u8 at 2, one pad, u16 at 4, u8 at 6
    assert_eq!(
        d.key_bytes(&inst),
        vec![0u8, 0, 0, 0, 1, 2, 3, 0, 4, 5, 6]
    );
}

#[test]
fn non_key_reordering_keeps_layout() {
    let keys_first = StructuredTypeSchema {
        type_id: 30,
        fields: vec![
            field(FieldType::Primitive(PrimKind::I32), KeyMarker::Key),
            field(FieldType::Primitive(PrimKind::I32), KeyMarker::Key),
            field(FieldType::Text, KeyMarker::NotKey),
        ],
    };
    let keys_last = StructuredTypeSchema {
        type_id: 30,
        fields: vec![
            field(FieldType::Text, KeyMarker::NotKey),
            field(FieldType::Primitive(PrimKind::I32), KeyMarker::Key),
            field(FieldType::Primitive(PrimKind::I32), KeyMarker::Key),
        ],
    };
    let d1 = TopicDescriptor::derive(SchemaRegistry::new(), &keys_first).unwrap();
    let d2 = TopicDescriptor::derive(SchemaRegistry::new(), &keys_last).unwrap();
    let i1 = InstanceValue {
        fields: vec![
            FieldValue::Prim(PrimValue::I32(1)),
            FieldValue::Prim(PrimValue::I32(2)),
            FieldValue::Text(b"note".to_vec()),
        ],
    };
    let i2 = InstanceValue {
        fields: vec![
            FieldValue::Text(b"other".to_vec()),
            FieldValue::Prim(PrimValue::I32(1)),
            FieldValue::Prim(PrimValue::I32(2)),
        ],
    };
    assert_eq!(d1.key_bytes(&i1), d2.key_bytes(&i2));
}

#[test]
fn field_after_text_realigns() {
    let schema = StructuredTypeSchema {
        type_id: 40,
        fields: vec![
            field(FieldType::Text, KeyMarker::Key),
            field(FieldType::Primitive(PrimKind::U16), KeyMarker::Key),
        ],
    };
    let d = TopicDescriptor::derive(SchemaRegistry::new(), &schema).unwrap();
    let inst = InstanceValue {
        fields: vec![
            FieldValue::Text(b"ab".to_vec()),
            FieldValue::Prim(PrimValue::U16(0x0102)),
        ],
    };
    // text ends at offset 7, so one pad byte precedes the u16
    assert_eq!(
        d.key_bytes(&inst),
        vec![0u8, 0, 0, 0, 0, 0, 0, 3, 97, 98, 0, 0, 1, 2]
    );
}

#[test]
fn empty_sequence_encodes_count_only() {
    assert_eq!(
        one_value_bytes(
            FieldType::Sequence(ElementType::Primitive(PrimKind::U64)),
            FieldValue::Sequence(Vec::new())
        ),
        vec![0u8, 0, 0, 0, 0, 0, 0, 0]
    );
}

#[test]
fn earliest_registration_of_an_identifier_wins() {
    let first = StructuredTypeSchema {
        type_id: 50,
        fields: vec![field(FieldType::Primitive(PrimKind::U8), KeyMarker::Key)],
    };
    let second = StructuredTypeSchema {
        type_id: 50,
        fields: vec![field(FieldType::Primitive(PrimKind::U32), KeyMarker::Key)],
    };
    let outer = StructuredTypeSchema {
        type_id: 51,
        fields: vec![field(FieldType::Named(50), KeyMarker::Key)],
    };
    let mut reg = SchemaRegistry::new();
    reg.register(&first).unwrap();
    reg.register(&second).unwrap();
    let d = TopicDescriptor::derive(reg, &outer).unwrap();
    let inst = InstanceValue {
        fields: vec![FieldValue::Struct(InstanceValue {
            fields: vec![FieldValue::Prim(PrimValue::U8(9))],
        })],
    };
    // nested references resolve to the first registration, the u8 key
    assert!(d.instance_conforms(&inst));
    assert_eq!(d.key_bytes(&inst), vec![0u8, 0, 0, 0, 9]);
}

#[test]
fn key_reordering_changes_layout() {
    let xy = StructuredTypeSchema {
        type_id: 31,
        fields: vec![
            field(FieldType::Primitive(PrimKind::I32), KeyMarker::Key),
            field(FieldType::Primitive(PrimKind::I32), KeyMarker::Key),
        ],
    };
    let d = TopicDescriptor::derive(SchemaRegistry::new(), &xy).unwrap();
    let a = InstanceValue {
        fields: vec![
            FieldValue::Prim(PrimValue::I32(1)),
            FieldValue::Prim(PrimValue::I32(2)),
        ],
    };
    let b = InstanceValue {
        fields: vec![
            FieldValue::Prim(PrimValue::I32(2)),
            FieldValue::Prim(PrimValue::I32(1)),
        ],
    };
    // the layout follows key declaration order, so swapped values differ
    assert_ne!(d.key_bytes(&a), d.key_bytes(&b));
    assert_eq!(d.key_bytes(&b), vec![0u8, 0, 0, 0, 0, 0, 0, 2, 0, 0, 0, 1]);
}
