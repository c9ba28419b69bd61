use typed_builder::machine::Builder;
use typed_builder::machine::FieldOut;
use typed_builder::schema::FieldClass;
use typed_builder::schema::FieldSchema;
use typed_builder::schema::RecordSchema;

// The running example: {x: required, y: optional zero value,
// z: optional with default expression "20"}.
fn example_schema() -> RecordSchema {
    RecordSchema {
        name: String::from("Foo"),
        fields: vec![
            FieldSchema {
                name: String::from("x"),
                declared_type: String::from("i32"),
                classification: FieldClass::Required,
            },
            FieldSchema {
                name: String::from("y"),
                declared_type: String::from("Option<i32>"),
                classification: FieldClass::OptionalZeroValue,
            },
            FieldSchema {
                name: String::from("z"),
                declared_type: String::from("i32"),
                classification: FieldClass::OptionalWithDefault(String::from("20")),
            },
        ],
    }
}

#[test]
fn build_all_fields_in_order() {
    let schema = example_schema();
    let b = Builder::<u64>::start(&schema);
    let b = b.set_field(0, 1).set_field(1, 2).set_field(2, 3);
    assert!(b.build_enabled(&schema));
    let out = b.finalize(&schema);
    assert_eq!(out, vec![FieldOut::Given(1), FieldOut::Given(2), FieldOut::Given(3)]);
}

#[test]
fn build_order_does_not_matter() {
    let schema = example_schema();
    // set z first, then x, then y: same fields, other order
    let b = Builder::<u64>::start(&schema);
    let b = b.set_field(2, 1).set_field(0, 2).set_field(1, 3);
    assert!(b.build_enabled(&schema));
    let out = b.finalize(&schema);
    assert_eq!(out, vec![FieldOut::Given(2), FieldOut::Given(3), FieldOut::Given(1)]);
}

#[test]
fn omitted_optional_fields_fall_back() {
    let schema = example_schema();
    let b = Builder::<u64>::start(&schema).set_field(0, 1);
    assert!(b.build_enabled(&schema));
    let out = b.finalize(&schema);
    assert_eq!(
        out,
        vec![
            FieldOut::Given(1),
            FieldOut::ZeroValue,
            FieldOut::Evaluated(String::from("20")),
        ]
    );
}

#[test]
fn finalization_unreachable_without_required_field() {
    let schema = example_schema();
    let b = Builder::<u64>::start(&schema);
    // nothing set: x is missing, so the finalizing operation is unavailable
    assert!(!b.build_enabled(&schema));
    // setting only the optional fields does not help
    let b = b.set_field(1, 2).set_field(2, 3);
    assert!(!b.build_enabled(&schema));
}

#[test]
fn setter_unavailable_once_slot_is_filled() {
    let schema = example_schema();
    let b = Builder::<u64>::start(&schema);
    assert!(b.setter_enabled(0));
    assert!(b.setter_enabled(1));
    let b = b.set_field(0, 7);
    // a second set of the same field matches no signature
    assert!(!b.setter_enabled(0));
    assert!(b.setter_enabled(1));
}

#[test]
fn all_required_schema_needs_every_setter() {
    let schema = RecordSchema {
        name: String::from("Pair"),
        fields: vec![
            FieldSchema {
                name: String::from("a"),
                declared_type: String::from("u8"),
                classification: FieldClass::Required,
            },
            FieldSchema {
                name: String::from("b"),
                declared_type: String::from("u8"),
                classification: FieldClass::Required,
            },
        ],
    };
    let b = Builder::<u64>::start(&schema);
    assert!(!b.build_enabled(&schema));
    let b = b.set_field(1, 9);
    assert!(!b.build_enabled(&schema));
    let b = b.set_field(0, 8);
    assert!(b.build_enabled(&schema));
    assert_eq!(b.finalize(&schema), vec![FieldOut::Given(8), FieldOut::Given(9)]);
}

#[test]
fn empty_named_record_builds_immediately() {
    let schema = RecordSchema { name: String::from("Unitish"), fields: vec![] };
    let b = Builder::<u64>::start(&schema);
    assert!(b.build_enabled(&schema));
    assert_eq!(b.finalize(&schema), Vec::<FieldOut<u64>>::new());
}
