//! The type-state encoder: each field owns a private, uniquely-named pair of
//! marker types. The generated builder type is generic over one marker slot
//! per field; a slot instantiated with the field's unset marker means the
//! field has not been set, and the field's setter flips exactly that slot to
//! the set marker. Marker names key on the field's name — field identity,
//! never declared type — so two fields sharing a declared type keep distinct
//! set/unset status.

use vstd::prelude::*;
use vstd::string::StringExecFns;
use crate::schema::RecordSchema;

verus! {

/// The pair of marker type names owned by one field.
pub struct MarkerPair {
    pub unset_name: String,
    pub set_name: String,
}

/// The name of the marker that tags field `name` as not yet set.
pub open spec fn unset_marker_spec(name: Seq<char>) -> Seq<char> {
    "TypedBuilderUnset_"@ + name
}

/// The name of the marker that tags field `name` as already set.
pub open spec fn set_marker_spec(name: Seq<char>) -> Seq<char> {
    "TypedBuilderSet_"@ + name
}

/// Build the marker pair owned by the field called `name`.
pub fn marker_pair(name: &String) -> (r: MarkerPair)
    ensures
        r.unset_name@ == unset_marker_spec(name@),
        r.set_name@ == set_marker_spec(name@),
{
    MarkerPair {
        unset_name: String::from_str("TypedBuilderUnset_").concat(name.as_str()),
        set_name: String::from_str("TypedBuilderSet_").concat(name.as_str()),
    }
}

/// Distinct field names get distinct unset markers.
pub proof fn lemma_unset_marker_injective(a: Seq<char>, b: Seq<char>)
    requires
        unset_marker_spec(a) == unset_marker_spec(b),
    ensures
        a == b,
{
    let p = "TypedBuilderUnset_"@;
    assert(a =~= (p + a).subrange(p.len() as int, (p + a).len() as int));
    assert(b =~= (p + b).subrange(p.len() as int, (p + b).len() as int));
}

/// Distinct field names get distinct set markers.
pub proof fn lemma_set_marker_injective(a: Seq<char>, b: Seq<char>)
    requires
        set_marker_spec(a) == set_marker_spec(b),
    ensures
        a == b,
{
    let p = "TypedBuilderSet_"@;
    assert(a =~= (p + a).subrange(p.len() as int, (p + a).len() as int));
    assert(b =~= (p + b).subrange(p.len() as int, (p + b).len() as int));
}

/// No unset marker ever coincides with a set marker, whatever the two
/// fields' names: the two vocabularies are disjoint.
pub proof fn lemma_marker_kinds_disjoint(a: Seq<char>, b: Seq<char>)
    ensures
        unset_marker_spec(a) != set_marker_spec(b),
{
    let pu = "TypedBuilderUnset_"@;
    let ps = "TypedBuilderSet_"@;
    reveal_strlit("TypedBuilderUnset_");
    reveal_strlit("TypedBuilderSet_");
    assert(pu[12] == 'U');
    assert(ps[12] == 'S');
    if unset_marker_spec(a) == set_marker_spec(b) {
        assert((pu + a)[12] == (ps + b)[12]);
        assert(false);
    }
}

/// Markers key on field identity: in a well-formed record all marker names
/// are pairwise distinct, even between fields sharing a declared type, and
/// no field's unset marker coincides with any field's set marker.
pub proof fn lemma_marker_names_distinct(schema: RecordSchema, i: int, j: int)
    requires
        schema.wf(),
        0 <= i < schema.len(),
        0 <= j < schema.len(),
    ensures
        i != j ==> unset_marker_spec(schema.fields@[i].name@) != unset_marker_spec(
            schema.fields@[j].name@,
        ),
        i != j ==> set_marker_spec(schema.fields@[i].name@) != set_marker_spec(
            schema.fields@[j].name@,
        ),
        unset_marker_spec(schema.fields@[i].name@) != set_marker_spec(schema.fields@[j].name@),
{
    let a = schema.fields@[i].name@;
    let b = schema.fields@[j].name@;
    if i != j {
        if unset_marker_spec(a) == unset_marker_spec(b) {
            lemma_unset_marker_injective(a, b);
        }
        if set_marker_spec(a) == set_marker_spec(b) {
            lemma_set_marker_injective(a, b);
        }
    }
    lemma_marker_kinds_disjoint(a, b);
}

/// Build the whole marker vocabulary of a record: the marker pair of each
/// field, in field order.
pub fn marker_table(schema: &RecordSchema) -> (r: Vec<MarkerPair>)
    ensures
        r@.len() == schema.len(),
        forall|i: int|
            0 <= i < schema.len() ==> {
                &&& (#[trigger] r@[i]).unset_name@ == unset_marker_spec(schema.fields@[i].name@)
                &&& r@[i].set_name@ == set_marker_spec(schema.fields@[i].name@)
            },
{
    let n = schema.fields.len();
    let mut r: Vec<MarkerPair> = Vec::new();
    let mut i: usize = 0;
    while i < n
        invariant
            i <= n,
            n == schema.fields@.len(),
            r@.len() == i,
            forall|j: int|
                0 <= j < i ==> {
                    &&& (#[trigger] r@[j]).unset_name@ == unset_marker_spec(
                        schema.fields@[j].name@,
                    )
                    &&& r@[j].set_name@ == set_marker_spec(schema.fields@[j].name@)
                },
        decreases n - i,
    {
        r.push(marker_pair(&schema.fields[i].name));
        i += 1;
    }
    r
}

} // verus!
