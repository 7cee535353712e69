use topic_keys::descriptor::TopicDescriptor;
use topic_keys::holder::DeriveError;
use topic_keys::holder::SchemaRegistry;
use topic_keys::schema::ElementType;
use topic_keys::schema::FieldDescriptor;
use topic_keys::schema::FieldType;
use topic_keys::schema::KeyMarker;
use topic_keys::schema::PrimKind;
use topic_keys::schema::StructuredTypeSchema;
use topic_keys::schema::extract_key_fields;
use topic_keys::value::FieldValue;
use topic_keys::value::InstanceValue;
use topic_keys::value::PrimValue;

fn field(ty: FieldType, marker: KeyMarker) -> FieldDescriptor {
    FieldDescriptor { ty, marker }
}

#[test]
fn extractor_keeps_key_fields_in_order() {
    let schema = StructuredTypeSchema {
        type_id: 1,
        fields: vec![
            field(FieldType::Primitive(PrimKind::U32), KeyMarker::Key),
            field(FieldType::Text, KeyMarker::NotKey),
            field(FieldType::Enumeration, KeyMarker::KeyEnum),
            field(FieldType::Primitive(PrimKind::U64), KeyMarker::NotKey),
            field(FieldType::Primitive(PrimKind::I16), KeyMarker::Key),
        ],
    };
    let keys = extract_key_fields(&schema);
    assert_eq!(keys.len(), 3);
    assert_eq!(keys[0], field(FieldType::Primitive(PrimKind::U32), KeyMarker::Key));
    assert_eq!(keys[1], field(FieldType::Enumeration, KeyMarker::KeyEnum));
    assert_eq!(keys[2], field(FieldType::Primitive(PrimKind::I16), KeyMarker::Key));
}

#[test]
fn no_key_fields_means_no_key() {
    let schema = StructuredTypeSchema {
        type_id: 2,
        fields: vec![
            field(FieldType::Primitive(PrimKind::U32), KeyMarker::NotKey),
            field(FieldType::Text, KeyMarker::NotKey),
        ],
    };
    let d = TopicDescriptor::derive(SchemaRegistry::new(), &schema).unwrap();
    assert!(!d.has_key());
    assert!(!d.force_digest_key_hash());
    let inst = InstanceValue {
        fields: vec![
            FieldValue::Prim(PrimValue::U32(7)),
            FieldValue::Text(b"anything".to_vec()),
        ],
    };
    assert!(d.instance_conforms(&inst));
    assert_eq!(d.key_bytes(&inst), vec![0u8, 0, 0, 0]);
}

#[test]
fn text_key_forces_digest() {
    let schema = StructuredTypeSchema {
        type_id: 3,
        fields: vec![field(FieldType::Text, KeyMarker::Key)],
    };
    let d = TopicDescriptor::derive(SchemaRegistry::new(), &schema).unwrap();
    assert!(d.has_key());
    assert!(d.force_digest_key_hash());
}

#[test]
fn sequence_key_forces_digest() {
    let schema = StructuredTypeSchema {
        type_id: 4,
        fields: vec![field(
            FieldType::Sequence(ElementType::Primitive(PrimKind::U16)),
            KeyMarker::Key,
        )],
    };
    let d = TopicDescriptor::derive(SchemaRegistry::new(), &schema).unwrap();
    assert!(d.force_digest_key_hash());
}

#[test]
fn fixed_width_keys_do_not_force_digest() {
    let schema = StructuredTypeSchema {
        type_id: 5,
        fields: vec![
            field(FieldType::Primitive(PrimKind::U32), KeyMarker::Key),
            field(FieldType::Enumeration, KeyMarker::KeyEnum),
            field(
                FieldType::FixedArray(ElementType::Primitive(PrimKind::U8), 4),
                KeyMarker::Key,
            ),
            field(FieldType::Text, KeyMarker::NotKey),
        ],
    };
    let d = TopicDescriptor::derive(SchemaRegistry::new(), &schema).unwrap();
    assert!(d.has_key());
    assert!(!d.force_digest_key_hash());
}

#[test]
fn nested_variable_length_propagates() {
    let inner = StructuredTypeSchema {
        type_id: 10,
        fields: vec![field(FieldType::Text, KeyMarker::Key)],
    };
    let outer = StructuredTypeSchema {
        type_id: 11,
        fields: vec![field(FieldType::Named(10), KeyMarker::Key)],
    };
    let mut reg = SchemaRegistry::new();
    reg.register(&inner).unwrap();
    let d = TopicDescriptor::derive(reg, &outer).unwrap();
    assert!(d.force_digest_key_hash());
}

#[test]
fn nested_fixed_width_does_not_force_digest() {
    let inner = StructuredTypeSchema {
        type_id: 10,
        fields: vec![field(FieldType::Primitive(PrimKind::U32), KeyMarker::Key)],
    };
    let outer = StructuredTypeSchema {
        type_id: 11,
        fields: vec![
            field(FieldType::Named(10), KeyMarker::Key),
            field(FieldType::Primitive(PrimKind::U64), KeyMarker::NotKey),
        ],
    };
    let mut reg = SchemaRegistry::new();
    reg.register(&inner).unwrap();
    let d = TopicDescriptor::derive(reg, &outer).unwrap();
    assert!(d.has_key());
    assert!(!d.force_digest_key_hash());
}

#[test]
fn array_of_structs_is_rejected() {
    let schema = StructuredTypeSchema {
        type_id: 6,
        fields: vec![field(
            FieldType::FixedArray(ElementType::Named(10), 4),
            KeyMarker::Key,
        )],
    };
    let r = TopicDescriptor::derive(SchemaRegistry::new(), &schema);
    assert_eq!(r.err(), Some(DeriveError::UnsupportedArrayElement));
}

#[test]
fn sequence_of_structs_is_rejected() {
    let schema = StructuredTypeSchema {
        type_id: 7,
        fields: vec![field(
            FieldType::Sequence(ElementType::Named(10)),
            KeyMarker::Key,
        )],
    };
    let r = TopicDescriptor::derive(SchemaRegistry::new(), &schema);
    assert_eq!(r.err(), Some(DeriveError::UnsupportedKeyFieldType));
}

#[test]
fn unregistered_nested_key_is_rejected() {
    let outer = StructuredTypeSchema {
        type_id: 8,
        fields: vec![field(FieldType::Named(99), KeyMarker::Key)],
    };
    let r = TopicDescriptor::derive(SchemaRegistry::new(), &outer);
    assert_eq!(r.err(), Some(DeriveError::UnsupportedKeyFieldType));
}

#[test]
fn enumeration_without_enum_marker_is_rejected() {
    let schema = StructuredTypeSchema {
        type_id: 9,
        fields: vec![field(FieldType::Enumeration, KeyMarker::Key)],
    };
    let r = TopicDescriptor::derive(SchemaRegistry::new(), &schema);
    assert_eq!(r.err(), Some(DeriveError::UnsupportedKeyFieldType));
}

#[test]
fn first_offending_field_names_the_error() {
    let schema = StructuredTypeSchema {
        type_id: 12,
        fields: vec![
            field(FieldType::Primitive(PrimKind::U8), KeyMarker::Key),
            field(FieldType::Enumeration, KeyMarker::Key),
            field(
                FieldType::FixedArray(ElementType::Named(10), 2),
                KeyMarker::Key,
            ),
        ],
    };
    let r = TopicDescriptor::derive(SchemaRegistry::new(), &schema);
    assert_eq!(r.err(), Some(DeriveError::UnsupportedKeyFieldType));
}

#[test]
fn rejection_leaves_registry_reusable() {
    let bad = StructuredTypeSchema {
        type_id: 13,
        fields: vec![field(
            FieldType::Sequence(ElementType::Named(10)),
            KeyMarker::Key,
        )],
    };
    let good = StructuredTypeSchema {
        type_id: 14,
        fields: vec![field(FieldType::Primitive(PrimKind::U8), KeyMarker::Key)],
    };
    let mut reg = SchemaRegistry::new();
    assert_eq!(reg.register(&bad), Err(DeriveError::UnsupportedKeyFieldType));
    assert_eq!(reg.register(&good), Ok(()));
    assert_eq!(reg.len(), 1);
}

#[test]
fn fixed_size_declaration_is_independent() {
    let schema = StructuredTypeSchema {
        type_id: 15,
        fields: vec![field(FieldType::Text, KeyMarker::Key)],
    };
    let d = TopicDescriptor::derive_fixed_size(SchemaRegistry::new(), &schema).unwrap();
    assert!(d.is_fixed_size());
    assert!(d.force_digest_key_hash());
    assert!(d.conflicting_declaration());

    let schema2 = StructuredTypeSchema {
        type_id: 16,
        fields: vec![field(FieldType::Primitive(PrimKind::U32), KeyMarker::Key)],
    };
    let d2 = TopicDescriptor::derive_fixed_size(SchemaRegistry::new(), &schema2).unwrap();
    assert!(d2.is_fixed_size());
    assert!(!d2.force_digest_key_hash());
    assert!(!d2.conflicting_declaration());
    let d3 = TopicDescriptor::derive(SchemaRegistry::new(), &schema2).unwrap();
    assert!(!d3.is_fixed_size());
}

#[test]
fn conformance_rejects_wrong_shapes() {
    let schema = StructuredTypeSchema {
        type_id: 17,
        fields: vec![field(FieldType::Primitive(PrimKind::U32), KeyMarker::Key)],
    };
    let d = TopicDescriptor::derive(SchemaRegistry::new(), &schema).unwrap();
    let wrong_kind = InstanceValue {
        fields: vec![FieldValue::Prim(PrimValue::U16(1))],
    };
    assert!(!d.instance_conforms(&wrong_kind));
    let wrong_variant = InstanceValue {
        fields: vec![FieldValue::Text(b"x".to_vec())],
    };
    assert!(!d.instance_conforms(&wrong_variant));
    let too_short = InstanceValue { fields: vec![] };
    assert!(!d.instance_conforms(&too_short));
    let right = InstanceValue {
        fields: vec![FieldValue::Prim(PrimValue::U32(1))],
    };
    assert!(d.instance_conforms(&right));
}

#[test]
fn conformance_checks_array_length() {
    let schema = StructuredTypeSchema {
        type_id: 18,
        fields: vec![field(
            FieldType::FixedArray(ElementType::Primitive(PrimKind::U8), 3),
            KeyMarker::Key,
        )],
    };
    let d = TopicDescriptor::derive(SchemaRegistry::new(), &schema).unwrap();
    let short = InstanceValue {
        fields: vec![FieldValue::Array(vec![
            PrimValue::U8(1),
            PrimValue::U8(2),
        ])],
    };
    assert!(!d.instance_conforms(&short));
    let right = InstanceValue {
        fields: vec![FieldValue::Array(vec![
            PrimValue::U8(1),
            PrimValue::U8(2),
            PrimValue::U8(3),
        ])],
    };
    assert!(d.instance_conforms(&right));
}
