//! The construction protocol of the synthesized builder, made explicit: one
//! slot per field, starting all vacant; a setter fills exactly its own slot
//! and is only available while that slot is vacant; the finalizing operation
//! is available exactly when every required slot is filled, and fills each
//! omitted optional slot from its zero value or its default expression —
//! evaluated there and never earlier.
//!
//! In the generated artifact the vacant/filled status of each slot lives
//! only in the builder's type (its marker-slot instantiation), so a setter
//! or finalizing call made while unavailable matches no generated signature
//! and fails to compile. Here the same states and transitions are modeled
//! as values, and the guarantees of the type-level state machine are proved
//! of the model: chains that set a field twice are invalid, finalization is
//! reachable exactly when every required field was set, and the outcome of
//! a chain does not depend on the order of its calls.

use vstd::prelude::*;
use vstd::pervasive::unreached;
use crate::schema::FieldClass;
use crate::schema::RecordSchema;

verus! {

/// One storage slot of the builder: vacant, or holding the value the
/// field's setter stored.
#[derive(Clone, Copy, Debug, PartialEq)]
pub enum SlotVal<V> {
    Vacant,
    Held(V),
}

/// What the finalizing operation puts into one field of the finished
/// record: the stored value, the field type's intrinsic zero value, or the
/// result of evaluating the field's default expression at finalization.
#[derive(Debug, PartialEq)]
pub enum FieldOut<V> {
    Given(V),
    ZeroValue,
    Evaluated(String),
}

/// A builder in flight: one slot per field of its originating record.
pub struct Builder<V> {
    pub slots: Vec<SlotVal<V>>,
    pub schema: Ghost<RecordSchema>,
}

/// The all-vacant slot state the entry point produces.
pub open spec fn all_vacant<V>(n: nat) -> Seq<SlotVal<V>> {
    Seq::new(n, |i: int| SlotVal::Vacant)
}

/// The slot state after a chain of setter calls, each `(field, value)`,
/// applied in order from the all-vacant state.
pub open spec fn slots_after<V>(n: nat, calls: Seq<(int, V)>) -> Seq<SlotVal<V>>
    decreases calls.len(),
{
    if calls.len() == 0 {
        all_vacant(n)
    } else {
        slots_after(n, calls.drop_last()).update(
            calls.last().0,
            SlotVal::Held(calls.last().1),
        )
    }
}

/// Every call of a chain names a field of the record.
pub open spec fn calls_in_range<V>(n: nat, calls: Seq<(int, V)>) -> bool {
    forall|k: int| 0 <= k < calls.len() ==> 0 <= (#[trigger] calls[k]).0 < n
}

/// No two calls of a chain name the same field.
pub open spec fn distinct_fields<V>(calls: Seq<(int, V)>) -> bool {
    forall|k1: int, k2: int|
        0 <= k1 < k2 < calls.len() ==> (#[trigger] calls[k1]).0 != (#[trigger] calls[k2]).0
}

/// The chain is valid: every call fires while its field's slot is still
/// vacant. In the generated artifact an invalid chain is one that matches
/// no setter signature, hence fails to compile.
pub open spec fn chain_valid<V>(n: nat, calls: Seq<(int, V)>) -> bool
    decreases calls.len(),
{
    if calls.len() == 0 {
        true
    } else {
        &&& chain_valid(n, calls.drop_last())
        &&& 0 <= calls.last().0 < n
        &&& slots_after(n, calls.drop_last())[calls.last().0] is Vacant
    }
}

/// The slot that the latest call for field `i` left behind: vacant if no
/// call names `i`.
pub open spec fn latest_call<V>(calls: Seq<(int, V)>, i: int) -> SlotVal<V>
    decreases calls.len(),
{
    if calls.len() == 0 {
        SlotVal::Vacant
    } else if calls.last().0 == i {
        SlotVal::Held(calls.last().1)
    } else {
        latest_call(calls.drop_last(), i)
    }
}

/// Some call of the chain names field `i`.
pub open spec fn sets_field<V>(calls: Seq<(int, V)>, i: int) -> bool {
    exists|k: int| 0 <= k < calls.len() && (#[trigger] calls[k]).0 == i
}

/// The finalizing operation is available: every required slot is filled.
/// Optional slots may be filled or vacant either way.
pub open spec fn completion_enabled_spec<V>(schema: RecordSchema, slots: Seq<SlotVal<V>>) -> bool {
    &&& slots.len() == schema.len()
    &&& forall|i: int|
        0 <= i < schema.len() && schema.required_at(i) ==> (#[trigger] slots[i]) is Held
}

/// What finalization owes field `i`: a stored value is moved into the
/// result; a vacant optional slot is filled from the classification — the
/// intrinsic zero value, or the default expression spliced for evaluation
/// here and only here. A vacant required slot never reaches finalization.
pub open spec fn finalize_field_ok<V>(c: FieldClass, s: SlotVal<V>, o: FieldOut<V>) -> bool {
    match s {
        SlotVal::Held(v) => o == FieldOut::Given(v),
        SlotVal::Vacant => match c {
            FieldClass::Required => false,
            FieldClass::OptionalZeroValue => o is ZeroValue,
            FieldClass::OptionalWithDefault(e) => o matches FieldOut::Evaluated(x) && x@ == e@,
        },
    }
}

/// One more setter call extends a chain: the slots afterward are the slots
/// before with that field's slot flipped to held, and the extended chain is
/// valid exactly when the chain before it was and the slot was still
/// vacant.
pub proof fn lemma_chain_snoc<V>(n: nat, calls: Seq<(int, V)>, i: int, v: V)
    ensures
        slots_after(n, calls.push((i, v))) == slots_after(n, calls).update(i, SlotVal::Held(v)),
        chain_valid(n, calls.push((i, v))) <==> (chain_valid(n, calls) && 0 <= i < n
            && slots_after(n, calls)[i] is Vacant),
{
    assert(calls.push((i, v)).drop_last() =~= calls);
    assert(calls.push((i, v)).last() == (i, v));
}

/// Transitions are one-way: a slot once filled stays filled through every
/// later setter call — no operation returns the builder to an earlier
/// state vector, and builders are single-use, non-cyclic.
pub proof fn lemma_transitions_one_way<V>(n: nat, calls: Seq<(int, V)>, p: (int, V), i: int)
    requires
        calls_in_range(n, calls),
        0 <= i < n,
        0 <= p.0 < n,
        slots_after(n, calls)[i] is Held,
    ensures
        slots_after(n, calls.push(p))[i] is Held,
{
    lemma_chain_characterizes(n, calls);
    lemma_chain_snoc(n, calls, p.0, p.1);
    assert(calls.push(p) == calls.push((p.0, p.1)));
}

/// The slot a chain leaves for field `i` is the one its latest call for
/// `i` left behind, and a chain never changes the number of slots.
pub proof fn lemma_chain_characterizes<V>(n: nat, calls: Seq<(int, V)>)
    requires
        calls_in_range(n, calls),
    ensures
        slots_after(n, calls).len() == n,
        forall|i: int| 0 <= i < n ==> slots_after(n, calls)[i] == latest_call(calls, i),
    decreases calls.len(),
{
    if calls.len() > 0 {
        let d = calls.drop_last();
        assert forall|k: int| 0 <= k < d.len() implies 0 <= (#[trigger] d[k]).0 < n by {
            assert(d[k] == calls[k]);
        }
        lemma_chain_characterizes(n, d);
        assert(calls.last() == calls[calls.len() - 1]);
        assert(0 <= calls.last().0 < n);
        assert forall|i: int| 0 <= i < n implies slots_after(n, calls)[i] == latest_call(
            calls,
            i,
        ) by {
            if i == calls.last().0 {
                assert(slots_after(n, calls)[i] == SlotVal::Held(calls.last().1));
                assert(latest_call(calls, i) == SlotVal::Held(calls.last().1));
            } else {
                assert(slots_after(n, calls)[i] == slots_after(n, d)[i]);
                assert(latest_call(calls, i) == latest_call(d, i));
                assert(slots_after(n, d)[i] == latest_call(d, i));
            }
        }
    }
}

/// A chain leaves field `i` vacant exactly when none of its calls names
/// `i`.
pub proof fn lemma_latest_call_vacant<V>(calls: Seq<(int, V)>, i: int)
    ensures
        latest_call(calls, i) is Vacant <==> !sets_field(calls, i),
    decreases calls.len(),
{
    if calls.len() > 0 {
        let d = calls.drop_last();
        lemma_latest_call_vacant(d, i);
        if calls.last().0 == i {
            assert(calls[calls.len() - 1].0 == i);
        } else {
            if sets_field(calls, i) {
                let k = choose|k: int| 0 <= k < calls.len() && calls[k].0 == i;
                assert(d[k] == calls[k]);
            }
            if sets_field(d, i) {
                let k = choose|k: int| 0 <= k < d.len() && d[k].0 == i;
                assert(calls[k] == d[k]);
            }
        }
    }
}

/// A chain is valid exactly when every call names a field of the record
/// and no two calls name the same field: each setter fires at most once,
/// in any order.
pub proof fn lemma_valid_iff_distinct<V>(n: nat, calls: Seq<(int, V)>)
    ensures
        chain_valid(n, calls) <==> (calls_in_range(n, calls) && distinct_fields(calls)),
    decreases calls.len(),
{
    if calls.len() > 0 {
        let d = calls.drop_last();
        let last = calls.last();
        lemma_valid_iff_distinct(n, d);
        assert forall|k: int| 0 <= k < d.len() implies d[k] == calls[k] by {}
        lemma_latest_call_vacant(d, last.0);
        if chain_valid(n, calls) {
            lemma_chain_characterizes(n, d);
            assert(!sets_field(d, last.0));
            assert forall|k1: int, k2: int| 0 <= k1 < k2 < calls.len() implies (
            #[trigger] calls[k1]).0 != (#[trigger] calls[k2]).0 by {
                if k2 == calls.len() - 1 {
                    assert(d[k1] == calls[k1]);
                }
            }
        }
        if calls_in_range(n, calls) && distinct_fields(calls) {
            assert forall|k: int| 0 <= k < d.len() implies 0 <= (#[trigger] d[k]).0 < n by {}
            assert forall|k1: int, k2: int| 0 <= k1 < k2 < d.len() implies (#[trigger] d[k1]).0
                != (#[trigger] d[k2]).0 by {}
            if sets_field(d, last.0) {
                let k = choose|k: int| 0 <= k < d.len() && d[k].0 == last.0;
                assert(calls[k].0 == calls[calls.len() - 1].0);
                assert(false);
            }
            lemma_chain_characterizes(n, d);
        }
    }
}

/// A chain that invokes the same field's setter twice is no valid chain:
/// in the generated artifact it matches no setter signature and fails to
/// compile — no runtime "already set" path exists.
pub proof fn lemma_double_set_rejected<V>(n: nat, calls: Seq<(int, V)>, k1: int, k2: int)
    requires
        0 <= k1 < k2 < calls.len(),
        calls[k1].0 == calls[k2].0,
    ensures
        !chain_valid(n, calls),
{
    lemma_valid_iff_distinct(n, calls);
}

/// In a chain with pairwise distinct fields, field `i` ends up holding `v`
/// exactly when `(i, v)` is one of the calls.
pub proof fn lemma_latest_call_held<V>(calls: Seq<(int, V)>, i: int, v: V)
    requires
        distinct_fields(calls),
    ensures
        latest_call(calls, i) == SlotVal::Held(v) <==> calls.contains((i, v)),
    decreases calls.len(),
{
    if calls.len() > 0 {
        let d = calls.drop_last();
        let last = calls.last();
        assert forall|k: int| 0 <= k < d.len() implies d[k] == calls[k] by {}
        assert(distinct_fields(d));
        lemma_latest_call_held(d, i, v);
        if last.0 == i {
            if latest_call(calls, i) == SlotVal::Held(v) {
                assert(calls[calls.len() - 1] == (i, v));
            }
            if calls.contains((i, v)) {
                let k = choose|k: int| 0 <= k < calls.len() && calls[k] == (i, v);
                if k < calls.len() - 1 {
                    assert(calls[k].0 == calls[calls.len() - 1].0);
                    assert(false);
                }
            }
        } else {
            if d.contains((i, v)) {
                let k = choose|k: int| 0 <= k < d.len() && d[k] == (i, v);
                assert(calls[k] == (i, v));
            }
            if calls.contains((i, v)) {
                let k = choose|k: int| 0 <= k < calls.len() && calls[k] == (i, v);
                assert(k < calls.len() - 1);
                assert(d[k] == (i, v));
            }
        }
    }
}

/// Order-independence: two valid chains made of the same setter calls —
/// the same fields set to the same values, in any order — leave identical
/// slots, and so yield an identical finished record.
pub proof fn lemma_order_independence<V>(n: nat, c1: Seq<(int, V)>, c2: Seq<(int, V)>)
    requires
        chain_valid(n, c1),
        chain_valid(n, c2),
        forall|p: (int, V)| c1.contains(p) <==> c2.contains(p),
    ensures
        slots_after(n, c1) == slots_after(n, c2),
{
    lemma_valid_iff_distinct(n, c1);
    lemma_valid_iff_distinct(n, c2);
    lemma_chain_characterizes(n, c1);
    lemma_chain_characterizes(n, c2);
    assert forall|i: int| 0 <= i < n implies slots_after(n, c1)[i] == slots_after(n, c2)[i] by {
        lemma_latest_call_vacant(c1, i);
        lemma_latest_call_vacant(c2, i);
        match latest_call(c1, i) {
            SlotVal::Held(v) => {
                lemma_latest_call_held(c1, i, v);
                lemma_latest_call_held(c2, i, v);
            },
            SlotVal::Vacant => {
                if sets_field(c2, i) {
                    let k = choose|k: int| 0 <= k < c2.len() && c2[k].0 == i;
                    let p = c2[k];
                    assert(c2.contains(p));
                    assert(c1.contains(p));
                    let k1 = choose|k1: int| 0 <= k1 < c1.len() && c1[k1] == p;
                    assert(c1[k1].0 == i);
                    assert(false);
                }
            },
        }
    }
    assert(slots_after(n, c1) =~= slots_after(n, c2));
}

/// Finalization is reachable after a valid chain exactly when every
/// required field was set by some call of the chain.
pub proof fn lemma_completion_reachability<V>(schema: RecordSchema, calls: Seq<(int, V)>)
    requires
        chain_valid(schema.len(), calls),
    ensures
        completion_enabled_spec(schema, slots_after(schema.len(), calls)) <==> (forall|i: int|
            0 <= i < schema.len() && schema.required_at(i) ==> sets_field(calls, i)),
{
    let n = schema.len();
    lemma_valid_iff_distinct(n, calls);
    lemma_chain_characterizes(n, calls);
    assert forall|i: int| 0 <= i < n implies (slots_after(n, calls)[i] is Held <==> sets_field(
        calls,
        i,
    )) by {
        lemma_latest_call_vacant(calls, i);
    }
}

/// For an all-required record, finalization is reachable after a valid
/// chain exactly when every field's setter was invoked — and a valid chain
/// invokes each at most once, in any order: exactly once per field.
pub proof fn lemma_all_required_reachability<V>(schema: RecordSchema, calls: Seq<(int, V)>)
    requires
        forall|i: int| 0 <= i < schema.len() ==> schema.required_at(i),
        chain_valid(schema.len(), calls),
    ensures
        completion_enabled_spec(schema, slots_after(schema.len(), calls)) <==> (forall|i: int|
            0 <= i < schema.len() ==> sets_field(calls, i)),
        distinct_fields(calls),
{
    let n = schema.len();
    lemma_completion_reachability(schema, calls);
    lemma_valid_iff_distinct(n, calls);
    if completion_enabled_spec(schema, slots_after(n, calls)) {
        assert forall|i: int| 0 <= i < n implies sets_field(calls, i) by {
            assert(schema.required_at(i));
        }
    } else {
        if forall|i: int| 0 <= i < n ==> sets_field(calls, i) {
            assert(forall|i: int|
                0 <= i < n && schema.required_at(i) ==> sets_field(calls, i));
            assert(false);
        }
    }
}

/// An omitted `OptionalZeroValue` field finalizes to its type's zero
/// value; an invoked setter's value is taken as given.
pub proof fn lemma_zero_value_default<V>(c: FieldClass, s: SlotVal<V>, o: FieldOut<V>)
    requires
        c is OptionalZeroValue,
        finalize_field_ok(c, s, o),
    ensures
        s is Vacant ==> o is ZeroValue,
        s matches SlotVal::Held(v) ==> o == FieldOut::Given(v),
{
}

/// An omitted `OptionalWithDefault` field finalizes to the evaluation of
/// its stored default expression — spliced at the finalization site; once
/// the setter was invoked, the expression never appears in the result, so
/// it is never evaluated.
pub proof fn lemma_default_expr_lazy<V>(c: FieldClass, s: SlotVal<V>, o: FieldOut<V>)
    requires
        c is OptionalWithDefault,
        finalize_field_ok(c, s, o),
    ensures
        s is Vacant ==> (o matches FieldOut::Evaluated(x) && x@ == c.default_expr()),
        s matches SlotVal::Held(v) ==> (o == FieldOut::Given(v) && !(o is Evaluated)),
{
}

impl<V: Copy> Builder<V> {
    /// The builder belongs to `schema`: one slot per field.
    pub open spec fn matches_schema(self, schema: RecordSchema) -> bool {
        self.schema@ == schema && self.slots@.len() == schema.len()
    }

    /// The zero-state entry point: a builder for `schema` with every slot
    /// vacant.
    pub fn start(schema: &RecordSchema) -> (b: Builder<V>)
        ensures
            b.matches_schema(*schema),
            b.slots@ == all_vacant::<V>(schema.len()),
    {
        let n = schema.fields.len();
        let mut slots: Vec<SlotVal<V>> = Vec::new();
        let mut i: usize = 0;
        while i < n
            invariant
                i <= n,
                slots@.len() == i,
                forall|j: int| 0 <= j < i ==> slots@[j] is Vacant,
            decreases n - i,
        {
            slots.push(SlotVal::Vacant);
            i += 1;
        }
        proof {
            assert(slots@ =~= all_vacant::<V>(schema.len()));
        }
        Builder { slots, schema: Ghost(*schema) }
    }

    /// Field `i`'s setter is available: its slot is still vacant. In the
    /// generated artifact this is the question whether the builder's type
    /// instantiates slot `i` with the field's unset marker.
    pub fn setter_enabled(&self, i: usize) -> (r: bool)
        requires
            i < self.slots@.len(),
        ensures
            r == (self.slots@[i as int] is Vacant),
    {
        match self.slots[i] {
            SlotVal::Vacant => true,
            SlotVal::Held(_) => false,
        }
    }

    /// Field `i`'s setter: store `v` in slot `i` and hand back the builder
    /// with exactly that slot flipped to held, all other slots and the
    /// originating schema carried over unchanged. Only available while the
    /// slot is vacant — setting a field twice matches no signature.
    pub fn set_field(self, i: usize, v: V) -> (b: Builder<V>)
        requires
            i < self.slots@.len(),
            self.slots@[i as int] is Vacant,
        ensures
            b.slots@ == self.slots@.update(i as int, SlotVal::Held(v)),
            b.schema == self.schema,
    {
        let mut slots = self.slots;
        slots[i] = SlotVal::Held(v);
        Builder { slots, schema: self.schema }
    }

    /// The finalizing operation is available: every required slot of the
    /// originating schema is filled.
    #[verifier::loop_isolation(false)]
    pub fn build_enabled(&self, schema: &RecordSchema) -> (r: bool)
        requires
            self.matches_schema(*schema),
        ensures
            r == completion_enabled_spec(*schema, self.slots@),
    {
        let n = schema.fields.len();
        let mut i: usize = 0;
        while i < n
            invariant
                i <= n,
                forall|j: int|
                    0 <= j < i && schema.required_at(j) ==> (#[trigger] self.slots@[j]) is Held,
            decreases n - i,
        {
            let required = match &schema.fields[i].classification {
                FieldClass::Required => true,
                FieldClass::OptionalZeroValue => false,
                FieldClass::OptionalWithDefault(_) => false,
            };
            if required {
                match self.slots[i] {
                    SlotVal::Vacant => {
                        return false;
                    },
                    SlotVal::Held(_) => {},
                }
            }
            i += 1;
        }
        true
    }

    /// The finalizing operation: consume the builder — it is single-use —
    /// and produce the finished record's fields. Each stored value is moved
    /// into the result; each omitted optional field is filled from its
    /// classification, its default expression evaluated here and never
    /// earlier. Only available when every required slot is filled — in the
    /// generated artifact any other instantiation is a compile error.
    #[verifier::loop_isolation(false)]
    pub fn finalize(self, schema: &RecordSchema) -> (r: Vec<FieldOut<V>>)
        requires
            self.matches_schema(*schema),
            completion_enabled_spec(*schema, self.slots@),
        ensures
            r@.len() == schema.len(),
            forall|i: int|
                0 <= i < schema.len() ==> finalize_field_ok(
                    schema.fields@[i].classification,
                    self.slots@[i],
                    #[trigger] r@[i],
                ),
    {
        let n = schema.fields.len();
        let mut r: Vec<FieldOut<V>> = Vec::new();
        let mut i: usize = 0;
        while i < n
            invariant
                i <= n,
                r@.len() == i,
                forall|j: int|
                    0 <= j < i ==> finalize_field_ok(
                        schema.fields@[j].classification,
                        self.slots@[j],
                        #[trigger] r@[j],
                    ),
            decreases n - i,
        {
            match self.slots[i] {
                SlotVal::Held(v) => {
                    r.push(FieldOut::Given(v));
                },
                SlotVal::Vacant => {
                    match &schema.fields[i].classification {
                        FieldClass::Required => {
                            // excluded by availability: every required slot is filled
                            let out: FieldOut<V> = unreached();
                            r.push(out);
                        },
                        FieldClass::OptionalZeroValue => {
                            r.push(FieldOut::ZeroValue);
                        },
                        FieldClass::OptionalWithDefault(e) => {
                            r.push(FieldOut::Evaluated(e.clone()));
                        },
                    }
                },
            }
            i += 1;
        }
        r
    }
}

} // verus!
