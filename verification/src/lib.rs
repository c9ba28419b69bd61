//! Compile-time builder generation for record types.
//!
//! Given the definition of a record type whose fields carry optional
//! `default` annotations, this library classifies each field, assigns each
//! field a pair of type-state marker names, and synthesizes the description
//! of a builder API: a builder type generic over one marker slot per field,
//! a zero-state entry point, one setter per field, a finalizing operation
//! reachable only when every required slot is marked set, and a coercion
//! bridge for ergonomic setter inputs.
//!
//! The `machine` module gives the construction protocol of the synthesized
//! builder an explicit model and proves its central properties: a setter can
//! fire only while its slot is vacant, finalization is reachable exactly when
//! every required slot has been filled, omitted optional fields fall back to
//! their zero value or to a lazily spliced default expression, and the result
//! of a chain of setter calls does not depend on the order of the calls.

pub mod classify;
pub mod encode;
pub mod machine;
pub mod schema;
pub mod synth;
