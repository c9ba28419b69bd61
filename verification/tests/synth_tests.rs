use typed_builder::classify::AttrFault;
use typed_builder::classify::GenError;
use typed_builder::classify::RawField;
use typed_builder::classify::RawRecord;
use typed_builder::classify::RawShape;
use typed_builder::classify::ShapeFault;
use typed_builder::encode::marker_pair;
use typed_builder::synth::generate;
use typed_builder::synth::Decl;
use typed_builder::synth::UnsetPlan;

fn field(name: &str, ty: &str, anns: &[&str]) -> RawField {
    RawField {
        name: String::from(name),
        declared_type: String::from(ty),
        annotations: anns.iter().map(|a| String::from(*a)).collect(),
    }
}

fn example_input() -> RawRecord {
    RawRecord {
        name: String::from("Foo"),
        shape: RawShape::NamedFields(vec![
            field("x", "i32", &[]),
            field("y", "Option<i32>", &["default"]),
            field("z", "i32", &["default=20"]),
        ]),
    }
}

#[test]
fn marker_names_key_on_field_identity() {
    let a = marker_pair(&String::from("x"));
    let b = marker_pair(&String::from("y"));
    assert_eq!(a.unset_name, "TypedBuilderUnset_x");
    assert_eq!(a.set_name, "TypedBuilderSet_x");
    // two fields of the same declared type still get distinct markers
    assert_ne!(a.unset_name, b.unset_name);
    assert_ne!(a.set_name, b.set_name);
    assert_ne!(a.unset_name, a.set_name);
}

#[test]
fn generated_declarations_in_emission_order() {
    let g = generate(&example_input()).unwrap();
    assert_eq!(g.decls.len(), 7);

    match &g.decls[0] {
        Decl::BuilderType(d) => {
            assert_eq!(d.name, "FooBuilder");
            assert_eq!(d.record, "Foo");
            assert_eq!(d.markers.len(), 3);
            assert_eq!(d.markers[0].unset_name, "TypedBuilderUnset_x");
            assert_eq!(d.markers[0].set_name, "TypedBuilderSet_x");
            assert_eq!(d.markers[2].unset_name, "TypedBuilderUnset_z");
            assert_eq!(
                d.storage_types,
                vec![String::from("i32"), String::from("Option<i32>"), String::from("i32")]
            );
        },
        _ => panic!("expected the builder type first"),
    }

    match &g.decls[1] {
        Decl::EntryPoint(d) => {
            assert_eq!(d.builder, "FooBuilder");
            assert_eq!(
                d.initial_markers,
                vec![
                    String::from("TypedBuilderUnset_x"),
                    String::from("TypedBuilderUnset_y"),
                    String::from("TypedBuilderUnset_z"),
                ]
            );
        },
        _ => panic!("expected the entry point second"),
    }

    match &g.decls[2] {
        Decl::Coercion(d) => assert_eq!(d.name, "FooBuilderCoercion"),
        _ => panic!("expected the coercion bridge third"),
    }

    let names = ["x", "y", "z"];
    for i in 0..3 {
        match &g.decls[3 + i] {
            Decl::Setter(d) => {
                assert_eq!(d.field, names[i]);
                assert_eq!(d.slot, i);
                assert_eq!(d.guard_marker, format!("TypedBuilderUnset_{}", names[i]));
                assert_eq!(d.result_marker, format!("TypedBuilderSet_{}", names[i]));
            },
            _ => panic!("expected one setter per field"),
        }
    }

    match &g.decls[6] {
        Decl::Completion(d) => {
            assert_eq!(d.required_slots, vec![0usize]);
            assert_eq!(
                d.unset_plans,
                vec![
                    UnsetPlan::Forbidden,
                    UnsetPlan::IntrinsicZero,
                    UnsetPlan::Splice(String::from("20")),
                ]
            );
        },
        _ => panic!("expected the finalizing operation last"),
    }
}

#[test]
fn setter_accepts_coercible_values() {
    let g = generate(&example_input()).unwrap();
    match &g.decls[3] {
        Decl::Setter(d) => assert_eq!(d.accepts_into, "i32"),
        _ => panic!("expected a setter"),
    }
}

#[test]
fn generation_aborts_as_a_unit() {
    let input = RawRecord {
        name: String::from("Foo"),
        shape: RawShape::NamedFields(vec![
            field("x", "i32", &[]),
            field("y", "i32", &["default", "default=1"]),
        ]),
    };
    match generate(&input) {
        Err(GenError::Attribute { field, fault }) => {
            assert_eq!(field, 1);
            assert_eq!(fault, AttrFault::Conflicting);
        },
        _ => panic!("expected generation to abort"),
    }

    let input = RawRecord { name: String::from("Foo"), shape: RawShape::EnumShape };
    match generate(&input) {
        Err(GenError::SchemaShape(f)) => assert_eq!(f, ShapeFault::EnumShape),
        _ => panic!("expected a shape fault"),
    }
}
