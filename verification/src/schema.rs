//! The normalized schema model: a record type as an ordered sequence of
//! fields, each with a name, a declared type, and a classification that
//! fixes how the generated builder treats the field.

use vstd::prelude::*;

verus! {

/// How a field may be filled: it must be set before finalization
/// (`Required`), it falls back to its type's intrinsic zero value
/// (`OptionalZeroValue`), or it falls back to a caller-supplied default
/// expression, stored verbatim and spliced unevaluated into the
/// finalization site (`OptionalWithDefault`).
#[derive(Debug, PartialEq)]
pub enum FieldClass {
    Required,
    OptionalZeroValue,
    OptionalWithDefault(String),
}

impl FieldClass {
    /// Does this classification demand that the field be set before the
    /// finalizing operation becomes reachable?
    pub open spec fn is_required(self) -> bool {
        self is Required
    }

    /// The verbatim default expression text, for an `OptionalWithDefault`
    /// classification; empty otherwise.
    pub open spec fn default_expr(self) -> Seq<char> {
        match self {
            FieldClass::OptionalWithDefault(e) => e@,
            _ => Seq::empty(),
        }
    }
}

/// One field of a record: its name, its declared type (as resolved text),
/// and its classification. The classification is fixed at classification
/// time and never mutated afterward.
#[derive(Debug, PartialEq)]
pub struct FieldSchema {
    pub name: String,
    pub declared_type: String,
    pub classification: FieldClass,
}

/// A record type: a name and an ordered sequence of fields. The order
/// affects only the order of the emitted setters, never correctness.
#[derive(Debug, PartialEq)]
pub struct RecordSchema {
    pub name: String,
    pub fields: Vec<FieldSchema>,
}

impl RecordSchema {
    /// Number of fields.
    pub open spec fn len(self) -> nat {
        self.fields@.len()
    }

    /// Field `i` must be set before finalization.
    pub open spec fn required_at(self, i: int) -> bool {
        self.fields@[i].classification is Required
    }

    /// Well-formed: field names are pairwise distinct, as the host
    /// language guarantees for a named-field record.
    pub open spec fn wf(self) -> bool {
        forall|i: int, j: int|
            0 <= i < j < self.fields@.len() ==> self.fields@[i].name@ != self.fields@[j].name@
    }
}

} // verus!
