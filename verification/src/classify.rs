//! The field classifier: derives each field's classification from its raw
//! annotation text, and turns the raw type definition handed in by the
//! host-language parser into a normalized `RecordSchema`.
//!
//! An annotation is the text inside a field's builder attribute. Exactly two
//! forms are accepted: `default`, requesting the declared type's intrinsic
//! zero value, and `default=<expr>` with a nonempty `<expr>`, supplying a
//! default expression that is stored verbatim. A field with no annotation is
//! required. Any other annotation text is malformed; more than one
//! annotation on a single field is a conflict. Either fault aborts
//! generation for the whole record.

use vstd::prelude::*;
use vstd::pervasive::unreached;
use vstd::string::StrSliceExecFns;
use vstd::string::StringExecFns;
use crate::schema::FieldClass;
use crate::schema::FieldSchema;
use crate::schema::RecordSchema;

verus! {

/// One field as handed in by the host-language parser: a name, the declared
/// type as resolved text, and the raw annotation texts attached to it.
pub struct RawField {
    pub name: String,
    pub declared_type: String,
    pub annotations: Vec<String>,
}

impl RawField {
    /// The annotation texts of this field, as character sequences.
    pub open spec fn ann_views(self) -> Seq<Seq<char>> {
        self.annotations@.map(|i: int, a: String| a@)
    }
}

/// The shape of the type definition handed in. Only a record with named
/// fields can receive a builder.
pub enum RawShape {
    NamedFields(Vec<RawField>),
    UnnamedFields,
    NoFields,
    EnumShape,
    UnionShape,
}

/// A raw type definition: its name and its shape.
pub struct RawRecord {
    pub name: String,
    pub shape: RawShape,
}

/// Why the input's shape admits no builder: its fields are positional-only,
/// it has no fields, or it is not a record at all.
#[derive(Clone, Copy, PartialEq, Eq, Structural, Debug)]
pub enum ShapeFault {
    UnnamedFields,
    NoFields,
    EnumShape,
    UnionShape,
}

/// Why a field's annotations are rejected: one of them matches neither
/// accepted form (`annotation` is the position of the first such one), or
/// the field carries more than one annotation.
#[derive(Clone, Copy, PartialEq, Eq, Structural, Debug)]
pub enum AttrFault {
    Malformed { annotation: usize },
    Conflicting,
}

/// A fatal condition: generation for the enclosing record is aborted as a
/// single unit, and no partial output is ever produced. `field` anchors an
/// annotation fault to the field it arose on.
#[derive(Clone, Copy, PartialEq, Eq, Structural, Debug)]
pub enum GenError {
    SchemaShape(ShapeFault),
    Attribute { field: usize, fault: AttrFault },
}

/// The annotation requests the declared type's intrinsic zero value.
pub open spec fn zero_request(s: Seq<char>) -> bool {
    s == "default"@
}

/// The annotation supplies an explicit default expression: `default=<expr>`
/// with a nonempty `<expr>`.
pub open spec fn explicit_request(s: Seq<char>) -> bool {
    s.len() > 8 && s.subrange(0, 8) == "default="@
}

/// The expression text of an explicit-default annotation: everything after
/// `default=`.
pub open spec fn requested_expr(s: Seq<char>) -> Seq<char> {
    s.subrange(8, s.len() as int)
}

/// The annotation matches neither accepted form.
pub open spec fn ann_malformed(s: Seq<char>) -> bool {
    !zero_request(s) && !explicit_request(s)
}

/// Some annotation in the list is malformed.
pub open spec fn some_malformed(anns: Seq<Seq<char>>) -> bool {
    exists|k: int| 0 <= k < anns.len() && ann_malformed(anns[k])
}

/// The annotation list is rejected: it holds a malformed annotation, or
/// more than one annotation.
pub open spec fn field_faulty(anns: Seq<Seq<char>>) -> bool {
    some_malformed(anns) || anns.len() > 1
}

/// `fault` is the exact fault that the annotation list `anns` earns: the
/// first malformed annotation's position, or a conflict among well-formed
/// annotations.
pub open spec fn fault_matches(anns: Seq<Seq<char>>, fault: AttrFault) -> bool {
    match fault {
        AttrFault::Malformed { annotation } => {
            &&& 0 <= annotation < anns.len()
            &&& ann_malformed(anns[annotation as int])
            &&& forall|k: int| 0 <= k < annotation ==> !ann_malformed(anns[k])
        },
        AttrFault::Conflicting => !some_malformed(anns) && anns.len() > 1,
    }
}

/// `c` is the classification that the annotation list `anns` earns.
pub open spec fn classifies(anns: Seq<Seq<char>>, c: FieldClass) -> bool {
    match c {
        FieldClass::Required => anns.len() == 0,
        FieldClass::OptionalZeroValue => anns.len() == 1 && zero_request(anns[0]),
        FieldClass::OptionalWithDefault(e) => {
            anns.len() == 1 && explicit_request(anns[0]) && e@ == requested_expr(anns[0])
        },
    }
}

/// `s` is the normalized schema of a named-field record called `name` with
/// raw fields `fs`: same name, same fields in the same order, each
/// classified by its annotations.
pub open spec fn classified(name: Seq<char>, fs: Seq<RawField>, s: RecordSchema) -> bool {
    &&& s.name@ == name
    &&& s.fields@.len() == fs.len()
    &&& forall|i: int|
        0 <= i < fs.len() ==> {
            &&& (#[trigger] s.fields@[i]).name@ == fs[i].name@
            &&& s.fields@[i].declared_type@ == fs[i].declared_type@
            &&& classifies(fs[i].ann_views(), s.fields@[i].classification)
        }
}

/// Classify one annotation text, or report it malformed (`None`).
pub fn classify_annotation(ann: &String) -> (r: Option<FieldClass>)
    ensures
        zero_request(ann@) ==> r == Some(FieldClass::OptionalZeroValue),
        explicit_request(ann@) ==> (r matches Some(FieldClass::OptionalWithDefault(e))
            && e@ == requested_expr(ann@)),
        ann_malformed(ann@) ==> r is None,
{
    proof {
        reveal_strlit("default");
        reveal_strlit("default=");
    }
    if *ann == String::from_str("default") {
        Some(FieldClass::OptionalZeroValue)
    } else {
        let n = ann.as_str().unicode_len();
        if n > 8 {
            let head = ann.as_str().substring_char(0, 8);
            if String::from_str(head) == String::from_str("default=") {
                let expr = ann.as_str().substring_char(8, n).to_owned();
                Some(FieldClass::OptionalWithDefault(expr))
            } else {
                None
            }
        } else {
            None
        }
    }
}

/// Classify one field from its annotations, in priority order: a malformed
/// annotation is reported first (at its position), then a conflict among
/// several annotations; otherwise no annotation means required, and the
/// single annotation decides between the two optional classifications.
pub fn classify_field(f: &RawField) -> (r: Result<FieldClass, AttrFault>)
    ensures
        field_faulty(f.ann_views()) ==> (r matches Err(fault)
            && fault_matches(f.ann_views(), fault)),
        !field_faulty(f.ann_views()) ==> (r matches Ok(c) && classifies(f.ann_views(), c)),
{
    let ghost vs = f.ann_views();
    let n = f.annotations.len();
    let mut k: usize = 0;
    while k < n
        invariant
            k <= n,
            n == vs.len(),
            vs == f.ann_views(),
            forall|j: int| 0 <= j < k ==> !ann_malformed(vs[j]),
        decreases n - k,
    {
        if classify_annotation(&f.annotations[k]).is_none() {
            proof {
                assert(ann_malformed(vs[k as int]));
            }
            return Err(AttrFault::Malformed { annotation: k });
        }
        k += 1;
    }
    if n == 0 {
        Ok(FieldClass::Required)
    } else if n > 1 {
        Err(AttrFault::Conflicting)
    } else {
        proof {
            assert(vs[0] == f.annotations@[0]@);
        }
        match classify_annotation(&f.annotations[0]) {
            Some(c) => Ok(c),
            None => unreached(),
        }
    }
}

/// `r` is the exact outcome that classification owes the raw input: the
/// normalized schema for a named-field record whose annotations are all
/// accepted, the first field's fault where one is rejected, and the shape
/// fault for every other shape.
pub open spec fn classification_outcome(input: RawRecord, r: Result<RecordSchema, GenError>) -> bool {
    match input.shape {
        RawShape::NamedFields(fs) => {
            &&& (exists|i: int| 0 <= i < fs@.len() && field_faulty(fs@[i].ann_views()))
                ==> (r matches Err(GenError::Attribute { field, fault }) && {
                    &&& 0 <= field < fs@.len()
                    &&& field_faulty(fs@[field as int].ann_views())
                    &&& forall|j: int| 0 <= j < field ==> !field_faulty(fs@[j].ann_views())
                    &&& fault_matches(fs@[field as int].ann_views(), fault)
                })
            &&& (forall|i: int| 0 <= i < fs@.len() ==> !field_faulty(fs@[i].ann_views()))
                ==> (r matches Ok(s) && classified(input.name@, fs@, s))
        },
        RawShape::UnnamedFields => r == Err::<RecordSchema, GenError>(GenError::SchemaShape(
            ShapeFault::UnnamedFields,
        )),
        RawShape::NoFields => r == Err::<RecordSchema, GenError>(GenError::SchemaShape(
            ShapeFault::NoFields,
        )),
        RawShape::EnumShape => r == Err::<RecordSchema, GenError>(GenError::SchemaShape(
            ShapeFault::EnumShape,
        )),
        RawShape::UnionShape => r == Err::<RecordSchema, GenError>(GenError::SchemaShape(
            ShapeFault::UnionShape,
        )),
    }
}

/// Classify a raw type definition into a normalized record schema, or
/// report the single fatal condition that aborts generation: a shape that
/// admits no builder, or the first field whose annotations are rejected.
#[verifier::loop_isolation(false)]
pub fn classify_record(input: &RawRecord) -> (r: Result<RecordSchema, GenError>)
    ensures
        classification_outcome(*input, r),
{
    match &input.shape {
        RawShape::NamedFields(fs) => {
            let n = fs.len();
            let mut out: Vec<FieldSchema> = Vec::new();
            let mut i: usize = 0;
            while i < n
                invariant
                    i <= n,
                    n == fs@.len(),
                    out@.len() == i,
                    forall|j: int| 0 <= j < i ==> !field_faulty(fs@[j].ann_views()),
                    forall|j: int|
                        0 <= j < i ==> {
                            &&& (#[trigger] out@[j]).name@ == fs@[j].name@
                            &&& out@[j].declared_type@ == fs@[j].declared_type@
                            &&& classifies(fs@[j].ann_views(), out@[j].classification)
                        },
                decreases n - i,
            {
                let f = &fs[i];
                match classify_field(f) {
                    Ok(c) => {
                        out.push(FieldSchema {
                            name: f.name.clone(),
                            declared_type: f.declared_type.clone(),
                            classification: c,
                        });
                    },
                    Err(fault) => {
                        return Err(GenError::Attribute { field: i, fault });
                    },
                }
                i += 1;
            }
            Ok(RecordSchema { name: input.name.clone(), fields: out })
        },
        RawShape::UnnamedFields => Err(GenError::SchemaShape(ShapeFault::UnnamedFields)),
        RawShape::NoFields => Err(GenError::SchemaShape(ShapeFault::NoFields)),
        RawShape::EnumShape => Err(GenError::SchemaShape(ShapeFault::EnumShape)),
        RawShape::UnionShape => Err(GenError::SchemaShape(ShapeFault::UnionShape)),
    }
}

} // verus!
