//! What holds of every builder generated from a schema, run as a state machine:
//! the order of the setter calls does not matter, a field that is not
//! repeatable cannot be set twice, a repeated field keeps its last value, the
//! defaults apply only to fields left out, and every supplied value comes back.
use vstd::prelude::*;
use crate::decls::Declarations;
use crate::machine::{fill_value, fits, outcome, run, start_state, step, Value};
use crate::markers::Marker;
use crate::schema::{Requirement, Schema};

verus! {

/// Setter calls that each name a field below `n` and name no field twice.
pub open spec fn valid_calls<V>(calls: Seq<(int, V)>, n: nat) -> bool {
    &&& forall|i: int| 0 <= i < calls.len() ==> 0 <= (#[trigger] calls[i]).0 < n
    &&& forall|i: int, k: int|
        0 <= i < k < calls.len() ==> (#[trigger] calls[i]).0 != (#[trigger] calls[k]).0
}

/// Whether the calls set every field that the schema requires.
pub open spec fn covers_required<V>(schema: Schema, calls: Seq<(int, V)>) -> bool {
    forall|j: int|
        0 <= j < schema.fields@.len() && (#[trigger] schema.fields@[j]).requirement.is_required()
            ==> exists|i: int| 0 <= i < calls.len() && (#[trigger] calls[i]).0 == j
}

/// The value that the last call for field `j` supplied.
pub open spec fn supplied<V>(calls: Seq<(int, V)>, j: int) -> Option<V>
    decreases calls.len(),
{
    if calls.len() == 0 {
        None
    } else if calls.last().0 == j {
        Some(calls.last().1)
    } else {
        supplied(calls.drop_last(), j)
    }
}

/// The state in which exactly the fields named by the calls are set.
pub open spec fn state_of<V>(calls: Seq<(int, V)>, n: nat) -> (Seq<bool>, Seq<Option<V>>) {
    (Seq::new(n, |j: int| supplied(calls, j) is Some), Seq::new(n, |j: int| supplied(calls, j)))
}

proof fn lemma_supplied_absent<V>(calls: Seq<(int, V)>, j: int)
    requires
        forall|i: int| 0 <= i < calls.len() ==> (#[trigger] calls[i]).0 != j,
    ensures
        supplied(calls, j) is None,
    decreases calls.len(),
{
    if calls.len() > 0 {
        assert(calls.last() == calls[calls.len() - 1]);
        lemma_supplied_absent(calls.drop_last(), j);
    }
}

proof fn lemma_supplied_present<V>(calls: Seq<(int, V)>, n: nat, i: int)
    requires
        valid_calls(calls, n),
        0 <= i < calls.len(),
    ensures
        supplied(calls, calls[i].0) == Some(calls[i].1),
    decreases calls.len(),
{
    let last = calls.len() - 1;
    if i < last {
        assert(calls[i].0 != calls[last].0);
        lemma_supplied_present(calls.drop_last(), n, i);
    }
}

proof fn lemma_supplied_from<V>(calls: Seq<(int, V)>, j: int)
    requires
        supplied(calls, j) is Some,
    ensures
        exists|i: int| 0 <= i < calls.len() && calls[i] == (j, supplied(calls, j)->0),
    decreases calls.len(),
{
    if calls.last().0 == j {
        assert(calls[calls.len() - 1] == (j, supplied(calls, j)->0));
    } else {
        lemma_supplied_from(calls.drop_last(), j);
        let i = choose|i: int|
            0 <= i < calls.drop_last().len() && calls.drop_last()[i] == (
                j,
                supplied(calls, j)->0,
            );
        assert(calls[i] == calls.drop_last()[i]);
    }
}

/// Setter calls that name each field at most once are all accepted, and leave
/// exactly the named fields set, with the values supplied.
pub proof fn lemma_run_distinct<V>(schema: Schema, d: Declarations, calls: Seq<(int, V)>)
    requires
        d.describes(schema),
        valid_calls(calls, schema.fields@.len()),
    ensures
        run(d, calls) == Some(state_of(calls, schema.fields@.len())),
    decreases calls.len(),
{
    let n = schema.fields@.len();
    if calls.len() == 0 {
        let st = start_state::<V>(d);
        assert(st.0 =~= state_of(calls, n).0);
        assert(st.1 =~= state_of(calls, n).1);
    } else {
        let prev = calls.drop_last();
        lemma_run_distinct(schema, d, prev);
        let st = state_of(prev, n);
        let k = calls.last().0;
        let v = calls.last().1;
        assert(calls[calls.len() - 1] == calls.last());
        assert forall|i: int| 0 <= i < prev.len() implies (#[trigger] prev[i]).0 != k by {
            assert(prev[i] == calls[i]);
        }
        lemma_supplied_absent(prev, k);
        let s = d.setters@[k];
        assert(crate::decls::is_setter_of(s, schema.fields@, k));
        assert(fits(s.input@, st.0));
        let next = step(d, st, k, v)->0;
        assert(next.0 =~= state_of(calls, n).0);
        assert(next.1 =~= state_of(calls, n).1);
    }
}

/// Any two orders of the same setter calls, each field named at most once and
/// every required field named, are both accepted, reach the same state, and
/// that state may be finalized.
pub proof fn lemma_order_irrelevant<V>(
    schema: Schema,
    d: Declarations,
    calls1: Seq<(int, V)>,
    calls2: Seq<(int, V)>,
)
    requires
        d.describes(schema),
        valid_calls(calls1, schema.fields@.len()),
        valid_calls(calls2, schema.fields@.len()),
        calls1.to_set() == calls2.to_set(),
        covers_required(schema, calls1),
    ensures
        run(d, calls1) is Some,
        run(d, calls2) == run(d, calls1),
        outcome(d, run(d, calls1)->0) is Some,
{
    let n = schema.fields@.len();
    lemma_run_distinct(schema, d, calls1);
    lemma_run_distinct(schema, d, calls2);
    assert forall|j: int| 0 <= j < n implies supplied(calls1, j) == supplied(calls2, j) by {
        if supplied(calls1, j) is Some {
            lemma_supplied_from(calls1, j);
            let i = choose|i: int| 0 <= i < calls1.len() && calls1[i] == (j, supplied(calls1, j)->0);
            assert(calls1.to_set().contains(calls1[i]));
            assert(calls2.to_set().contains(calls1[i]));
            let i2 = choose|i2: int| 0 <= i2 < calls2.len() && calls2[i2] == calls1[i];
            lemma_supplied_present(calls2, n, i2);
        } else if supplied(calls2, j) is Some {
            lemma_supplied_from(calls2, j);
            let i = choose|i: int| 0 <= i < calls2.len() && calls2[i] == (j, supplied(calls2, j)->0);
            assert(calls2.to_set().contains(calls2[i]));
            assert(calls1.to_set().contains(calls2[i]));
            let i1 = choose|i1: int| 0 <= i1 < calls1.len() && calls1[i1] == calls2[i];
            lemma_supplied_present(calls1, n, i1);
        }
    }
    assert(state_of(calls1, n).0 =~= state_of(calls2, n).0);
    assert(state_of(calls1, n).1 =~= state_of(calls2, n).1);
    let st = state_of(calls1, n);
    assert forall|j: int| 0 <= j < n && schema.fields@[j].requirement.is_required() implies st.1[j] is Some by {
        assert(schema.fields@[j].requirement.is_required());
        let i = choose|i: int| 0 <= i < calls1.len() && (#[trigger] calls1[i]).0 == j;
        lemma_supplied_present(calls1, n, i);
    }
    assert forall|j: int| 0 <= j < n implies match #[trigger] d.finalize.input@[j] {
        Marker::Unset => !st.0[j],
        Marker::Supplied => st.0[j],
        Marker::Free => true,
    } by {
        if schema.fields@[j].requirement.is_required() {
            assert(st.1[j] is Some);
        }
    }
    assert(fits(d.finalize.input@, st.0));
    assert forall|j: int| 0 <= j < d.width() implies (#[trigger] fill_value(
        d.finalize.fills@[j],
        st.1[j],
    )) is Some by {
        assert(crate::decls::fill_for(schema.fields@[j].requirement, d.finalize.fills@[j]));
        if schema.fields@[j].requirement.is_required() {
            assert(st.1[j] is Some);
        }
    }
}

proof fn lemma_flag_stays<V>(schema: Schema, d: Declarations, calls: Seq<(int, V)>, i: int)
    requires
        d.describes(schema),
        0 <= i < calls.len(),
        run(d, calls) is Some,
    ensures
        (run(d, calls)->0).0[calls[i].0],
        0 <= calls[i].0 < schema.fields@.len(),
    decreases calls.len(),
{
    let n = schema.fields@.len();
    let prev = calls.drop_last();
    let st = run(d, prev)->0;
    let k = calls.last().0;
    let s = d.setters@[k];
    assert(crate::decls::is_setter_of(s, schema.fields@, k));
    if i < calls.len() - 1 {
        lemma_flag_stays(schema, d, prev, i);
        assert(prev[i] == calls[i]);
    } else {
        assert(calls[i] == calls.last());
    }
}

proof fn lemma_slot_stays<V>(schema: Schema, d: Declarations, calls: Seq<(int, V)>, i: int)
    requires
        d.describes(schema),
        0 <= i < calls.len(),
        run(d, calls) is Some,
    ensures
        (run(d, calls)->0).1[calls[i].0] is Some,
    decreases calls.len(),
{
    let prev = calls.drop_last();
    let k = calls.last().0;
    let s = d.setters@[k];
    assert(crate::decls::is_setter_of(s, schema.fields@, k));
    lemma_width(schema, d, prev);
    lemma_flag_stays(schema, d, calls, i);
    if i < calls.len() - 1 {
        lemma_slot_stays(schema, d, prev, i);
        assert(prev[i] == calls[i]);
    } else {
        assert(calls[i] == calls.last());
    }
}

proof fn lemma_untouched<V>(schema: Schema, d: Declarations, calls: Seq<(int, V)>, j: int)
    requires
        d.describes(schema),
        0 <= j < schema.fields@.len(),
        run(d, calls) is Some,
        forall|i: int| 0 <= i < calls.len() ==> (#[trigger] calls[i]).0 != j,
    ensures
        !(run(d, calls)->0).0[j],
        (run(d, calls)->0).1[j] is None,
    decreases calls.len(),
{
    if calls.len() > 0 {
        let prev = calls.drop_last();
        let k = calls.last().0;
        let s = d.setters@[k];
        assert(crate::decls::is_setter_of(s, schema.fields@, k));
        assert(calls[calls.len() - 1] == calls.last());
        assert forall|i: int| 0 <= i < prev.len() implies (#[trigger] prev[i]).0 != j by {
            assert(prev[i] == calls[i]);
        }
        lemma_width(schema, d, prev);
        lemma_untouched(schema, d, prev, j);
    }
}

/// Of every sequence of setter calls that is accepted, finalize accepts the
/// state it reaches exactly when each required field's setter is among the
/// calls: no record is ever built with a required field missing, and the
/// defaulted fields never hold finalize back.
pub proof fn lemma_finalize_gate<V>(schema: Schema, d: Declarations, calls: Seq<(int, V)>)
    requires
        d.describes(schema),
        run(d, calls) is Some,
    ensures
        outcome(d, run(d, calls)->0) is Some <==> covers_required(schema, calls),
{
    let n = schema.fields@.len();
    let st = run(d, calls)->0;
    if covers_required(schema, calls) {
        assert forall|j: int| 0 <= j < n && schema.fields@[j].requirement.is_required() implies st.0[j]
            && st.1[j] is Some by {
            assert(schema.fields@[j].requirement.is_required());
            let i = choose|i: int| 0 <= i < calls.len() && (#[trigger] calls[i]).0 == j;
            lemma_flag_stays(schema, d, calls, i);
            lemma_slot_stays(schema, d, calls, i);
        }
        assert(run(d, calls) == Some(st));
        lemma_width(schema, d, calls);
        assert forall|j: int| 0 <= j < n implies match #[trigger] d.finalize.input@[j] {
            Marker::Unset => !st.0[j],
            Marker::Supplied => st.0[j],
            Marker::Free => true,
        } by {
            if schema.fields@[j].requirement.is_required() {
                assert(st.0[j]);
            }
        }
        assert(fits(d.finalize.input@, st.0));
        assert forall|j: int| 0 <= j < d.width() implies (#[trigger] fill_value(
            d.finalize.fills@[j],
            st.1[j],
        )) is Some by {
            assert(crate::decls::fill_for(schema.fields@[j].requirement, d.finalize.fills@[j]));
            if schema.fields@[j].requirement.is_required() {
                let i = choose|i: int| 0 <= i < calls.len() && (#[trigger] calls[i]).0 == j;
                lemma_slot_stays(schema, d, calls, i);
            }
        }
    } else {
        let j = choose|j: int|
            !(0 <= j < n && (#[trigger] schema.fields@[j]).requirement.is_required() ==> exists|i: int|
                0 <= i < calls.len() && (#[trigger] calls[i]).0 == j);
        lemma_untouched(schema, d, calls, j);
        assert(d.finalize.input@[j] == Marker::Supplied);
    }
}

/// A state reached by accepted calls has one flag and one slot per field.
proof fn lemma_width<V>(schema: Schema, d: Declarations, calls: Seq<(int, V)>)
    requires
        d.describes(schema),
        run(d, calls) is Some,
    ensures
        (run(d, calls)->0).0.len() == schema.fields@.len(),
        (run(d, calls)->0).1.len() == schema.fields@.len(),
    decreases calls.len(),
{
    if calls.len() > 0 {
        lemma_width(schema, d, calls.drop_last());
    }
}

/// A setter of a field that is not repeatable, called a second time, is
/// refused: no sequence of calls with two such calls reaches any state.
pub proof fn lemma_single_set_only<V>(
    schema: Schema,
    d: Declarations,
    calls: Seq<(int, V)>,
    f: int,
    i: int,
    k: int,
)
    requires
        d.describes(schema),
        0 <= f < schema.fields@.len(),
        !schema.fields@[f].repeatable,
        0 <= i < k < calls.len(),
        calls[i].0 == f,
        calls[k].0 == f,
    ensures
        run(d, calls) is None,
    decreases calls.len(),
{
    let prev = calls.drop_last();
    if k < calls.len() - 1 {
        assert(prev[i] == calls[i] && prev[k] == calls[k]);
        lemma_single_set_only(schema, d, prev, f, i, k);
    } else if run(d, prev) is Some {
        assert(prev[i] == calls[i]);
        lemma_flag_stays(schema, d, prev, i);
        let s = d.setters@[f];
        assert(crate::decls::is_setter_of(s, schema.fields@, f));
        assert(calls.last() == calls[k]);
        assert(s.input@[f] == Marker::Unset);
        assert(!fits(s.input@, (run(d, prev)->0).0));
    }
}

/// A repeatable field may be set twice from any state; the second value is the
/// one that stays, and the one that finalize yields.
pub proof fn lemma_last_value_kept<V>(
    schema: Schema,
    d: Declarations,
    st: (Seq<bool>, Seq<Option<V>>),
    f: int,
    v1: V,
    v2: V,
)
    requires
        d.describes(schema),
        0 <= f < schema.fields@.len(),
        schema.fields@[f].repeatable,
        st.0.len() == schema.fields@.len(),
        st.1.len() == schema.fields@.len(),
    ensures
        step(d, st, f, v1) is Some,
        step(d, step(d, st, f, v1)->0, f, v2) is Some,
        (step(d, step(d, st, f, v1)->0, f, v2)->0).1[f] == Some(v2),
        outcome(d, step(d, step(d, st, f, v1)->0, f, v2)->0) is Some ==> (outcome(
            d,
            step(d, step(d, st, f, v1)->0, f, v2)->0,
        )->0)[f] == Value::Given(v2),
{
    let s = d.setters@[f];
    assert(crate::decls::is_setter_of(s, schema.fields@, f));
    assert(fits(s.input@, st.0));
    let st1 = step(d, st, f, v1)->0;
    assert(fits(s.input@, st1.0));
}

/// When finalize accepts a state, a field that was set yields its value, and
/// one that was left out yields its default: the type's default value, or the
/// configured expression. A required field is never left out.
pub proof fn lemma_defaults<V>(
    schema: Schema,
    d: Declarations,
    st: (Seq<bool>, Seq<Option<V>>),
    j: int,
)
    requires
        d.describes(schema),
        st.1.len() == schema.fields@.len(),
        outcome(d, st) is Some,
        0 <= j < schema.fields@.len(),
    ensures
        ({
            let r = (outcome(d, st)->0)[j];
            match st.1[j] {
                Some(v) => r == Value::Given(v),
                None => match schema.fields@[j].requirement {
                    Requirement::Zero => r is Zero,
                    Requirement::Expr(e) => r matches Value::Expr(x) && x@ == e@,
                    _ => false,
                },
            }
        }),
{
    assert(crate::decls::fill_for(schema.fields@[j].requirement, d.finalize.fills@[j]));
    assert(fill_value(d.finalize.fills@[j], st.1[j]) is Some);
}

/// Setting every field once, in field order, and finalizing yields the record
/// whose fields are the supplied values.
pub proof fn lemma_round_trip<V>(schema: Schema, d: Declarations, values: Seq<V>)
    requires
        d.describes(schema),
        values.len() == schema.fields@.len(),
    ensures
        run(d, Seq::new(values.len(), |i: int| (i, values[i]))) is Some,
        outcome(d, run(d, Seq::new(values.len(), |i: int| (i, values[i])))->0) == Some(
            Seq::new(values.len(), |i: int| Value::Given(values[i])),
        ),
{
    let n = schema.fields@.len();
    let calls = Seq::new(values.len(), |i: int| (i, values[i]));
    assert(valid_calls(calls, n));
    lemma_run_distinct(schema, d, calls);
    let st = state_of(calls, n);
    assert forall|j: int| 0 <= j < n implies st.1[j] == Some(values[j]) by {
        lemma_supplied_present(calls, n, j);
    }
    assert forall|j: int| 0 <= j < n implies match #[trigger] d.finalize.input@[j] {
        Marker::Unset => !st.0[j],
        Marker::Supplied => st.0[j],
        Marker::Free => true,
    } by {
        if schema.fields@[j].requirement.is_required() {
            assert(st.1[j] is Some);
        }
    }
    assert(fits(d.finalize.input@, st.0));
    assert forall|j: int| 0 <= j < d.width() implies (#[trigger] fill_value(
        d.finalize.fills@[j],
        st.1[j],
    )) is Some by {
        assert(st.1[j] == Some(values[j]));
    }
    assert(outcome(d, st)->0 =~= Seq::new(values.len(), |i: int| Value::Given(values[i])));
}

} // verus!
