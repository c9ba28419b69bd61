//! The builder, completion and coercion synthesizers: from a classified
//! record schema they produce the sequence of generated top-level
//! declarations — the builder type, its zero-state entry point, the
//! coercion bridge, one setter per field, and the finalizing operation —
//! ready to be handed to a code-emission backend.
//!
//! Each declaration is described structurally: which marker guards a
//! setter, which marker it leaves behind, which slots the finalizing
//! operation demands set, and what fills each slot left unset. The
//! contracts pin every part of every declaration to the schema.

use vstd::prelude::*;
use vstd::string::StringExecFns;
use crate::classify::classification_outcome;
use crate::classify::classify_record;
use crate::classify::GenError;
use crate::classify::RawRecord;
use crate::encode::marker_table;
use crate::encode::set_marker_spec;
use crate::encode::unset_marker_spec;
use crate::encode::MarkerPair;
use crate::schema::FieldClass;
use crate::schema::RecordSchema;

verus! {

/// The generated builder type: generic over one marker slot per field,
/// with one optional-capable storage slot per field. `markers` is the
/// marker vocabulary, one pair per field in field order; `storage_types`
/// the declared type each slot stores.
pub struct BuilderTypeDecl {
    pub name: String,
    pub record: String,
    pub markers: Vec<MarkerPair>,
    pub storage_types: Vec<String>,
}

/// The zero-argument entry point: produces the builder instantiated with
/// every slot at its unset marker and every storage slot empty.
pub struct EntryPointDecl {
    pub builder: String,
    pub initial_markers: Vec<String>,
}

/// The coercion bridge: a thin generic type offering one conversion
/// operation that accepts any value convertible into a slot's storage
/// type, so setters need no per-field-type specialization.
pub struct CoercionDecl {
    pub name: String,
}

/// One field's setter: defined only for instantiations with slot `slot`
/// at `guard_marker` (the field's unset marker), accepting any value
/// convertible into `accepts_into`, and returning the instantiation with
/// that slot flipped to `result_marker`, everything else carried over.
pub struct SetterDecl {
    pub field: String,
    pub slot: usize,
    pub accepts_into: String,
    pub guard_marker: String,
    pub result_marker: String,
}

/// What the finalizing operation does with a slot left unset: a required
/// slot admits no such instantiation at all; an optional slot is filled
/// with the type's intrinsic zero value, or with its default expression
/// spliced verbatim for evaluation at this one site.
#[derive(Debug, PartialEq)]
pub enum UnsetPlan {
    Forbidden,
    IntrinsicZero,
    Splice(String),
}

/// The finalizing operation: defined only for instantiations with every
/// slot in `required_slots` at its set marker, with `unset_plans` saying,
/// slot by slot, what an unset slot receives.
pub struct CompletionDecl {
    pub required_slots: Vec<usize>,
    pub unset_plans: Vec<UnsetPlan>,
}

/// One generated top-level declaration.
pub enum Decl {
    BuilderType(BuilderTypeDecl),
    EntryPoint(EntryPointDecl),
    Coercion(CoercionDecl),
    Setter(SetterDecl),
    Completion(CompletionDecl),
}

/// The name of the builder type generated for a record.
pub open spec fn builder_name_spec(record: Seq<char>) -> Seq<char> {
    record + "Builder"@
}

/// The name of the coercion bridge generated for a record.
pub open spec fn coercion_name_spec(record: Seq<char>) -> Seq<char> {
    record + "BuilderCoercion"@
}

/// The builder type declaration is the one `s` earns: named after the
/// record, one marker pair and one storage slot per field, in field order.
pub open spec fn builder_type_ok(s: RecordSchema, d: BuilderTypeDecl) -> bool {
    &&& d.name@ == builder_name_spec(s.name@)
    &&& d.record@ == s.name@
    &&& d.markers@.len() == s.len()
    &&& forall|i: int|
        0 <= i < s.len() ==> {
            &&& (#[trigger] d.markers@[i]).unset_name@ == unset_marker_spec(s.fields@[i].name@)
            &&& d.markers@[i].set_name@ == set_marker_spec(s.fields@[i].name@)
        }
    &&& d.storage_types@.len() == s.len()
    &&& forall|i: int|
        0 <= i < s.len() ==> (#[trigger] d.storage_types@[i])@ == s.fields@[i].declared_type@
}

/// The entry point declaration is the one `s` earns: it yields the
/// all-unset instantiation of the record's builder type.
pub open spec fn entry_point_ok(s: RecordSchema, d: EntryPointDecl) -> bool {
    &&& d.builder@ == builder_name_spec(s.name@)
    &&& d.initial_markers@.len() == s.len()
    &&& forall|i: int|
        0 <= i < s.len() ==> (#[trigger] d.initial_markers@[i])@ == unset_marker_spec(
            s.fields@[i].name@,
        )
}

/// The coercion bridge declaration is the one `s` earns.
pub open spec fn coercion_ok(s: RecordSchema, d: CoercionDecl) -> bool {
    d.name@ == coercion_name_spec(s.name@)
}

/// The setter declaration for field `i` is the one `s` earns: it is keyed
/// on that field's own marker pair — field identity, never declared type —
/// accepts anything convertible into the declared type, and flips exactly
/// slot `i` from unset to set.
pub open spec fn setter_ok(s: RecordSchema, i: int, d: SetterDecl) -> bool {
    &&& d.field@ == s.fields@[i].name@
    &&& d.slot == i
    &&& d.accepts_into@ == s.fields@[i].declared_type@
    &&& d.guard_marker@ == unset_marker_spec(s.fields@[i].name@)
    &&& d.result_marker@ == set_marker_spec(s.fields@[i].name@)
}

/// The unset plan matches the field's classification.
pub open spec fn plan_matches(c: FieldClass, p: UnsetPlan) -> bool {
    match c {
        FieldClass::Required => p is Forbidden,
        FieldClass::OptionalZeroValue => p is IntrinsicZero,
        FieldClass::OptionalWithDefault(e) => p matches UnsetPlan::Splice(x) && x@ == e@,
    }
}

/// The finalizing declaration is the one `s` earns: its guard lists
/// exactly the required slots, in increasing slot order, and its unset
/// plans follow the classifications slot by slot.
pub open spec fn completion_ok(s: RecordSchema, d: CompletionDecl) -> bool {
    &&& d.unset_plans@.len() == s.len()
    &&& forall|i: int|
        0 <= i < s.len() ==> plan_matches(
            s.fields@[i].classification,
            #[trigger] d.unset_plans@[i],
        )
    &&& forall|k: int|
        0 <= k < d.required_slots@.len() ==> {
            &&& (#[trigger] d.required_slots@[k]) < s.len()
            &&& s.required_at(d.required_slots@[k] as int)
        }
    &&& forall|i: int|
        0 <= i < s.len() && s.required_at(i) ==> exists|k: int|
            0 <= k < d.required_slots@.len() && (#[trigger] d.required_slots@[k]) as int == i
    &&& forall|k1: int, k2: int|
        0 <= k1 < k2 < d.required_slots@.len() ==> (#[trigger] d.required_slots@[k1]) < (
        #[trigger] d.required_slots@[k2])
}

/// The declaration sequence is the one `s` earns, in emission order: the
/// builder type, the entry point, the coercion bridge, one setter per
/// field in field order, and the finalizing operation.
pub open spec fn decls_match(s: RecordSchema, ds: Seq<Decl>) -> bool {
    &&& ds.len() == s.len() + 4
    &&& ds[0] matches Decl::BuilderType(d) && builder_type_ok(s, d)
    &&& ds[1] matches Decl::EntryPoint(d) && entry_point_ok(s, d)
    &&& ds[2] matches Decl::Coercion(d) && coercion_ok(s, d)
    &&& forall|i: int|
        0 <= i < s.len() ==> ((#[trigger] ds[3 + i]) matches Decl::Setter(d) && setter_ok(
            s,
            i,
            d,
        ))
    &&& ds[s.len() as int + 3] matches Decl::Completion(d) && completion_ok(s, d)
}

/// Synthesize the builder type declaration of a record.
pub fn builder_type_decl(schema: &RecordSchema) -> (d: BuilderTypeDecl)
    ensures
        builder_type_ok(*schema, d),
{
    let n = schema.fields.len();
    let mut storage_types: Vec<String> = Vec::new();
    let mut i: usize = 0;
    while i < n
        invariant
            i <= n,
            n == schema.fields@.len(),
            storage_types@.len() == i,
            forall|j: int|
                0 <= j < i ==> (#[trigger] storage_types@[j])@ == schema.fields@[j].declared_type@,
        decreases n - i,
    {
        storage_types.push(schema.fields[i].declared_type.clone());
        i += 1;
    }
    BuilderTypeDecl {
        name: schema.name.clone().concat("Builder"),
        record: schema.name.clone(),
        markers: marker_table(schema),
        storage_types,
    }
}

/// Synthesize the entry point declaration of a record: the all-unset
/// instantiation, every storage slot empty.
pub fn entry_point_decl(schema: &RecordSchema) -> (d: EntryPointDecl)
    ensures
        entry_point_ok(*schema, d),
{
    let n = schema.fields.len();
    let mut initial_markers: Vec<String> = Vec::new();
    let mut i: usize = 0;
    while i < n
        invariant
            i <= n,
            n == schema.fields@.len(),
            initial_markers@.len() == i,
            forall|j: int|
                0 <= j < i ==> (#[trigger] initial_markers@[j])@ == unset_marker_spec(
                    schema.fields@[j].name@,
                ),
        decreases n - i,
    {
        initial_markers.push(
            String::from_str("TypedBuilderUnset_").concat(schema.fields[i].name.as_str()),
        );
        i += 1;
    }
    EntryPointDecl { builder: schema.name.clone().concat("Builder"), initial_markers }
}

/// Synthesize the coercion bridge declaration of a record.
pub fn coercion_decl(schema: &RecordSchema) -> (d: CoercionDecl)
    ensures
        coercion_ok(*schema, d),
{
    CoercionDecl { name: schema.name.clone().concat("BuilderCoercion") }
}

/// Synthesize the setter declaration of field `i`.
pub fn setter_decl(schema: &RecordSchema, i: usize) -> (d: SetterDecl)
    requires
        i < schema.len(),
    ensures
        setter_ok(*schema, i as int, d),
{
    SetterDecl {
        field: schema.fields[i].name.clone(),
        slot: i,
        accepts_into: schema.fields[i].declared_type.clone(),
        guard_marker: String::from_str("TypedBuilderUnset_").concat(schema.fields[i].name.as_str()),
        result_marker: String::from_str("TypedBuilderSet_").concat(schema.fields[i].name.as_str()),
    }
}

/// Synthesize the finalizing declaration of a record: its guard demands
/// every required slot set, and each optional slot left unset is filled
/// per its classification, a default expression being spliced for
/// evaluation at this one site and nowhere earlier.
#[verifier::loop_isolation(false)]
pub fn completion_decl(schema: &RecordSchema) -> (d: CompletionDecl)
    ensures
        completion_ok(*schema, d),
{
    let n = schema.fields.len();
    let mut required_slots: Vec<usize> = Vec::new();
    let mut unset_plans: Vec<UnsetPlan> = Vec::new();
    let mut i: usize = 0;
    while i < n
        invariant
            i <= n,
            unset_plans@.len() == i,
            forall|j: int|
                0 <= j < i ==> plan_matches(
                    schema.fields@[j].classification,
                    #[trigger] unset_plans@[j],
                ),
            forall|k: int|
                0 <= k < required_slots@.len() ==> {
                    &&& (#[trigger] required_slots@[k]) < i
                    &&& schema.required_at(required_slots@[k] as int)
                },
            forall|j: int|
                0 <= j < i && schema.required_at(j) ==> exists|k: int|
                    0 <= k < required_slots@.len() && (#[trigger] required_slots@[k]) as int == j,
            forall|k1: int, k2: int|
                0 <= k1 < k2 < required_slots@.len() ==> (#[trigger] required_slots@[k1]) < (
                #[trigger] required_slots@[k2]),
        decreases n - i,
    {
        match &schema.fields[i].classification {
            FieldClass::Required => {
                let ghost before = required_slots@;
                required_slots.push(i);
                unset_plans.push(UnsetPlan::Forbidden);
                proof {
                    assert forall|j: int| 0 <= j < i + 1 && schema.required_at(j)
                        implies exists|k: int|
                            0 <= k < required_slots@.len() && (#[trigger] required_slots@[k]) as int
                                == j by {
                        if j < i {
                            let k = choose|k: int|
                                0 <= k < before.len() && (#[trigger] before[k]) as int == j;
                            assert(required_slots@[k] as int == j);
                        } else {
                            assert(required_slots@[required_slots@.len() - 1] as int == j);
                        }
                    }
                }
            },
            FieldClass::OptionalZeroValue => {
                unset_plans.push(UnsetPlan::IntrinsicZero);
            },
            FieldClass::OptionalWithDefault(e) => {
                unset_plans.push(UnsetPlan::Splice(e.clone()));
            },
        }
        i += 1;
    }
    let d = CompletionDecl { required_slots, unset_plans };
    proof {
        assert forall|j: int| 0 <= j < schema.len() && schema.required_at(j)
            implies exists|k: int|
                0 <= k < d.required_slots@.len() && (#[trigger] d.required_slots@[k]) as int
                    == j by {
            let k = choose|k: int|
                0 <= k < required_slots@.len() && (#[trigger] required_slots@[k]) as int == j;
            assert(d.required_slots@[k] as int == j);
        }
    }
    d
}

/// The synthesized guard is exact: for any slot state of the right width,
/// demanding every slot listed in `required_slots` be filled is the same
/// as making the finalizing operation available — no instantiation missing
/// a required field slips through, and none with all of them set is
/// rejected.
pub proof fn lemma_completion_guard_exact<V>(
    s: RecordSchema,
    d: CompletionDecl,
    slots: Seq<crate::machine::SlotVal<V>>,
)
    requires
        completion_ok(s, d),
        slots.len() == s.len(),
    ensures
        (forall|k: int|
            0 <= k < d.required_slots@.len() ==> (#[trigger] slots[d.required_slots@[k] as int])
                is Held) <==> crate::machine::completion_enabled_spec(s, slots),
{
    if forall|k: int|
        0 <= k < d.required_slots@.len() ==> (#[trigger] slots[d.required_slots@[k] as int])
            is Held {
        assert forall|i: int| 0 <= i < s.len() && s.required_at(i) implies (#[trigger] slots[i])
            is Held by {
            let k = choose|k: int|
                0 <= k < d.required_slots@.len() && (#[trigger] d.required_slots@[k]) as int == i;
            assert(slots[d.required_slots@[k] as int] is Held);
        }
    }
}

/// A classified schema together with the declarations generated from it.
pub struct GeneratedBuilder {
    pub schema: RecordSchema,
    pub decls: Vec<Decl>,
}

/// The whole generator: classify the raw type definition and synthesize
/// every declaration of its builder API, or abort with the single fatal
/// condition — no partial output is ever produced.
#[verifier::loop_isolation(false)]
pub fn generate(input: &RawRecord) -> (r: Result<GeneratedBuilder, GenError>)
    ensures
        r matches Ok(g) ==> classification_outcome(
            *input,
            Ok::<RecordSchema, GenError>(g.schema),
        ) && decls_match(g.schema, g.decls@),
        r matches Err(e) ==> classification_outcome(*input, Err::<RecordSchema, GenError>(e)),
{
    let schema = match classify_record(input) {
        Ok(s) => s,
        Err(e) => {
            return Err(e);
        },
    };
    let n = schema.fields.len();
    let mut decls: Vec<Decl> = Vec::new();
    decls.push(Decl::BuilderType(builder_type_decl(&schema)));
    decls.push(Decl::EntryPoint(entry_point_decl(&schema)));
    decls.push(Decl::Coercion(coercion_decl(&schema)));
    let mut i: usize = 0;
    while i < n
        invariant
            i <= n,
            decls@.len() == 3 + i,
            decls@[0] matches Decl::BuilderType(d) && builder_type_ok(schema, d),
            decls@[1] matches Decl::EntryPoint(d) && entry_point_ok(schema, d),
            decls@[2] matches Decl::Coercion(d) && coercion_ok(schema, d),
            forall|j: int|
                0 <= j < i ==> ((#[trigger] decls@[3 + j]) matches Decl::Setter(d) && setter_ok(
                    schema,
                    j,
                    d,
                )),
        decreases n - i,
    {
        decls.push(Decl::Setter(setter_decl(&schema, i)));
        i += 1;
    }
    decls.push(Decl::Completion(completion_decl(&schema)));
    Ok(GeneratedBuilder { schema, decls })
}

} // verus!
