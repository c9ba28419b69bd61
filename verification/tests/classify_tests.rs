use typed_builder::classify::classify_annotation;
use typed_builder::classify::classify_field;
use typed_builder::classify::classify_record;
use typed_builder::classify::AttrFault;
use typed_builder::classify::GenError;
use typed_builder::classify::RawField;
use typed_builder::classify::RawRecord;
use typed_builder::classify::RawShape;
use typed_builder::classify::ShapeFault;
use typed_builder::schema::FieldClass;

fn field(name: &str, ty: &str, anns: &[&str]) -> RawField {
    RawField {
        name: String::from(name),
        declared_type: String::from(ty),
        annotations: anns.iter().map(|a| String::from(*a)).collect(),
    }
}

#[test]
fn annotation_zero_request() {
    assert_eq!(
        classify_annotation(&String::from("default")),
        Some(FieldClass::OptionalZeroValue)
    );
}

#[test]
fn annotation_explicit_default() {
    assert_eq!(
        classify_annotation(&String::from("default=20")),
        Some(FieldClass::OptionalWithDefault(String::from("20")))
    );
    assert_eq!(
        classify_annotation(&String::from("default=\"hello\"")),
        Some(FieldClass::OptionalWithDefault(String::from("\"hello\"")))
    );
}

#[test]
fn annotation_malformed() {
    assert_eq!(classify_annotation(&String::from("defaults")), None);
    assert_eq!(classify_annotation(&String::from("")), None);
    // an explicit default needs a nonempty expression
    assert_eq!(classify_annotation(&String::from("default=")), None);
    assert_eq!(classify_annotation(&String::from("defaul")), None);
}

#[test]
fn unannotated_field_is_required() {
    assert_eq!(classify_field(&field("x", "i32", &[])), Ok(FieldClass::Required));
}

#[test]
fn annotated_field_classifications() {
    assert_eq!(
        classify_field(&field("y", "i32", &["default"])),
        Ok(FieldClass::OptionalZeroValue)
    );
    assert_eq!(
        classify_field(&field("z", "i32", &["default=20"])),
        Ok(FieldClass::OptionalWithDefault(String::from("20")))
    );
}

#[test]
fn malformed_annotation_reported_at_position() {
    assert_eq!(
        classify_field(&field("x", "i32", &["bogus"])),
        Err(AttrFault::Malformed { annotation: 0 })
    );
    assert_eq!(
        classify_field(&field("x", "i32", &["default", "bogus"])),
        Err(AttrFault::Malformed { annotation: 1 })
    );
}

#[test]
fn conflicting_annotations_rejected() {
    assert_eq!(
        classify_field(&field("x", "i32", &["default", "default=1"])),
        Err(AttrFault::Conflicting)
    );
}

#[test]
fn shapes_without_named_fields_rejected() {
    let cases = [
        (RawShape::UnnamedFields, ShapeFault::UnnamedFields),
        (RawShape::NoFields, ShapeFault::NoFields),
        (RawShape::EnumShape, ShapeFault::EnumShape),
        (RawShape::UnionShape, ShapeFault::UnionShape),
    ];
    for (shape, fault) in cases {
        let input = RawRecord { name: String::from("Foo"), shape };
        match classify_record(&input) {
            Err(GenError::SchemaShape(f)) => assert_eq!(f, fault),
            other => panic!("expected a shape fault, got {:?}", other),
        }
    }
}

#[test]
fn record_classification_keeps_names_and_order() {
    let input = RawRecord {
        name: String::from("Foo"),
        shape: RawShape::NamedFields(vec![
            field("x", "i32", &[]),
            field("y", "Option<i32>", &["default"]),
            field("z", "i32", &["default=20"]),
        ]),
    };
    let schema = classify_record(&input).unwrap();
    assert_eq!(schema.name, "Foo");
    assert_eq!(schema.fields.len(), 3);
    assert_eq!(schema.fields[0].name, "x");
    assert_eq!(schema.fields[0].declared_type, "i32");
    assert_eq!(schema.fields[0].classification, FieldClass::Required);
    assert_eq!(schema.fields[1].name, "y");
    assert_eq!(schema.fields[1].declared_type, "Option<i32>");
    assert_eq!(schema.fields[1].classification, FieldClass::OptionalZeroValue);
    assert_eq!(schema.fields[2].name, "z");
    assert_eq!(
        schema.fields[2].classification,
        FieldClass::OptionalWithDefault(String::from("20"))
    );
}

#[test]
fn record_fault_anchored_to_first_faulty_field() {
    let input = RawRecord {
        name: String::from("Foo"),
        shape: RawShape::NamedFields(vec![
            field("x", "i32", &[]),
            field("y", "i32", &["nonsense"]),
            field("z", "i32", &["default", "default"]),
        ]),
    };
    assert_eq!(
        classify_record(&input),
        Err(GenError::Attribute { field: 1, fault: AttrFault::Malformed { annotation: 0 } })
    );
}
