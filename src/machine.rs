//! The builder as a state machine checked at run time: a state holds one
//! marker flag and one optional value per field, and the declarations drive it.
//! Where the generated code would not type-check (a setter whose marker does not
//! fit, a finalize before the required fields are in), this machine refuses the
//! call instead.
use vstd::prelude::*;
use crate::decls::{Declarations, Fill, Setter};
use crate::markers::Marker;

verus! {

/// A field of the finished record, as finalize yields it.
#[derive(Debug, PartialEq, Eq)]
pub enum Value<V> {
    /// The value that was supplied through the field's setter.
    Given(V),
    /// The field was left out; it takes its type's default value.
    Zero,
    /// The field was left out; it takes the value of this expression.
    Expr(String),
}

/// Why the machine refused a call.
#[derive(Debug, PartialEq, Eq)]
pub enum BuildError {
    /// There is no setter at this position.
    NoSuchSetter(usize),
    /// The setter at this position does not accept the current state: its field
    /// is already set and may not be set again.
    AlreadySet(usize),
    /// The state may not be finalized: some required field was never set.
    Incomplete,
}

/// A builder state: one flag per field, telling whether it was supplied, and
/// the supplied values.
pub struct Builder<V> {
    pub flags: Vec<bool>,
    pub slots: Vec<Option<V>>,
}

impl<V> View for Builder<V> {
    type V = (Seq<bool>, Seq<Option<V>>);

    open spec fn view(&self) -> (Seq<bool>, Seq<Option<V>>) {
        (self.flags@, self.slots@)
    }
}

/// Whether flags fit a row of markers.
pub open spec fn fits(row: Seq<Marker>, flags: Seq<bool>) -> bool {
    &&& row.len() == flags.len()
    &&& forall|j: int|
        0 <= j < row.len() ==> match #[trigger] row[j] {
            Marker::Unset => !flags[j],
            Marker::Supplied => flags[j],
            Marker::Free => true,
        }
}

/// The flags after a declaration returns a state with these markers: a `Free`
/// marker keeps its flag.
pub open spec fn advance(row: Seq<Marker>, flags: Seq<bool>) -> Seq<bool> {
    Seq::new(
        flags.len(),
        |j: int|
            match row[j] {
                Marker::Unset => false,
                Marker::Supplied => true,
                Marker::Free => flags[j],
            },
    )
}

/// The state that the factory returns.
pub open spec fn start_state<V>(d: Declarations) -> (Seq<bool>, Seq<Option<V>>) {
    (
        Seq::new(d.width(), |j: int| d.factory.markers@[j] == Marker::Supplied),
        Seq::new(d.width(), |j: int| None),
    )
}

/// The state after the setter at position `k` is called with `v`, if it
/// accepts `st`.
pub open spec fn step<V>(d: Declarations, st: (Seq<bool>, Seq<Option<V>>), k: int, v: V) -> Option<
    (Seq<bool>, Seq<Option<V>>),
> {
    if 0 <= k < d.setters@.len() && fits(d.setters@[k].input@, st.0) {
        let s = d.setters@[k];
        Some((advance(s.output@, st.0), st.1.update(s.field as int, Some(v))))
    } else {
        None
    }
}

/// The state after the factory and then a sequence of setter calls, each a
/// setter's position and its argument; `None` once a call is refused.
pub open spec fn run<V>(d: Declarations, calls: Seq<(int, V)>) -> Option<(Seq<bool>, Seq<Option<V>>)>
    decreases calls.len(),
{
    if calls.len() == 0 {
        Some(start_state(d))
    } else {
        match run(d, calls.drop_last()) {
            Some(st) => step(d, st, calls.last().0, calls.last().1),
            None => None,
        }
    }
}

/// One field of the record, from its fill and its slot.
pub open spec fn fill_value<V>(fill: Fill, slot: Option<V>) -> Option<Value<V>> {
    match slot {
        Some(v) => Some(Value::Given(v)),
        None => match fill {
            Fill::Unwrap => None,
            Fill::OrZero => Some(Value::Zero),
            Fill::OrExpr(e) => Some(Value::Expr(e)),
        },
    }
}

/// Whether finalize accepts the state.
pub open spec fn can_finalize<V>(d: Declarations, st: (Seq<bool>, Seq<Option<V>>)) -> bool {
    &&& fits(d.finalize.input@, st.0)
    &&& forall|j: int|
        0 <= j < d.width() ==> (#[trigger] fill_value(d.finalize.fills@[j], st.1[j])) is Some
}

/// The record's fields that finalize yields from the state, if it accepts it.
pub open spec fn outcome<V>(d: Declarations, st: (Seq<bool>, Seq<Option<V>>)) -> Option<Seq<Value<V>>> {
    if can_finalize(d, st) {
        Some(Seq::new(d.width(), |j: int| fill_value(d.finalize.fills@[j], st.1[j])->0))
    } else {
        None
    }
}

impl<V> Builder<V> {
    /// Whether the state has one flag and one slot for each field.
    pub open spec fn fits_width(&self, d: Declarations) -> bool {
        self.flags@.len() == d.width() && self.slots@.len() == d.width()
    }

    /// The state that the factory returns: every slot empty, the flags as the
    /// factory's markers say.
    pub fn start(d: &Declarations) -> (r: Builder<V>)
        requires
            d.wf(),
        ensures
            r@ == start_state::<V>(*d),
    {
        let n = d.state.slots.len();
        let mut flags: Vec<bool> = Vec::new();
        let mut slots: Vec<Option<V>> = Vec::new();
        let mut j: usize = 0;
        while j < n
            invariant
                d.wf(),
                n == d.width(),
                j <= n,
                flags@ =~= start_state::<V>(*d).0.take(j as int),
                slots@ =~= start_state::<V>(*d).1.take(j as int),
            decreases n - j,
        {
            flags.push(d.factory.markers[j] == Marker::Supplied);
            slots.push(None);
            j = j + 1;
        }
        Builder { flags, slots }
    }

    /// Calls the setter at position `k` with `value`.
    pub fn set(self, d: &Declarations, k: usize, value: V) -> (r: Result<Builder<V>, BuildError>)
        requires
            d.wf(),
            self.fits_width(*d),
        ensures
            match r {
                Ok(b) => step(*d, self@, k as int, value) == Some(b@),
                Err(BuildError::NoSuchSetter(i)) => i == k && k >= d.setters@.len(),
                Err(BuildError::AlreadySet(i)) => i == k && k < d.setters@.len() && step(
                    *d,
                    self@,
                    k as int,
                    value,
                ) is None,
                Err(BuildError::Incomplete) => false,
            },
    {
        if k >= d.setters.len() {
            return Err(BuildError::NoSuchSetter(k));
        }
        let s: &Setter = &d.setters[k];
        if !fits_exec(&s.input, &self.flags) {
            return Err(BuildError::AlreadySet(k));
        }
        let Builder { flags, mut slots } = self;
        let n = flags.len();
        let mut next: Vec<bool> = Vec::new();
        let mut j: usize = 0;
        while j < n
            invariant
                j <= n,
                n == flags@.len(),
                s.output@.len() == n,
                next@ =~= advance(s.output@, flags@).take(j as int),
            decreases n - j,
        {
            let b = match s.output[j] {
                Marker::Unset => false,
                Marker::Supplied => true,
                Marker::Free => flags[j],
            };
            next.push(b);
            j = j + 1;
        }
        assert(next@ =~= advance(s.output@, flags@));
        slots.set(s.field, Some(value));
        Ok(Builder { flags: next, slots })
    }

    /// Finalizes the state into the record's fields, in field order.
    pub fn finalize(self, d: &Declarations) -> (r: Result<Vec<Value<V>>, BuildError>)
        requires
            d.wf(),
            self.fits_width(*d),
        ensures
            match r {
                Ok(vals) => outcome(*d, self@) == Some(vals@),
                Err(e) => e is Incomplete && outcome(*d, self@) is None,
            },
    {
        if !fits_exec(&d.finalize.input, &self.flags) {
            return Err(BuildError::Incomplete);
        }
        let ghost st = self@;
        let Builder { flags: _, mut slots } = self;
        let n = slots.len();
        let mut vals: Vec<Value<V>> = Vec::new();
        let mut j: usize = 0;
        while j < n
            invariant
                d.wf(),
                n == d.width(),
                st.1.len() == n,
                st == self@,
                j <= n,
                slots@ == st.1.skip(j as int),
                vals@.len() == j,
                forall|i: int|
                    0 <= i < j ==> fill_value(d.finalize.fills@[i], st.1[i]) == Some(
                        #[trigger] vals@[i],
                    ),
            decreases n - j,
        {
            let slot = slots.remove(0);
            assert(slot == st.1[j as int]);
            assert(slots@ =~= st.1.skip(j + 1));
            let v = match slot {
                Some(v) => Value::Given(v),
                None => match &d.finalize.fills[j] {
                    Fill::Unwrap => {
                        assert(fill_value(d.finalize.fills@[j as int], st.1[j as int]) is None);
                        assert(!can_finalize(*d, st));
                        assert(outcome(*d, st) is None);
                        return Err(BuildError::Incomplete);
                    },
                    Fill::OrZero => Value::Zero,
                    Fill::OrExpr(e) => Value::Expr(e.clone()),
                },
            };
            vals.push(v);
            j = j + 1;
        }
        assert forall|i: int| 0 <= i < d.width() implies (#[trigger] fill_value(
            d.finalize.fills@[i],
            st.1[i],
        )) is Some by {
            assert(fill_value(d.finalize.fills@[i], st.1[i]) == Some(vals@[i]));
        }
        assert(can_finalize(*d, st));
        assert(vals@ =~= outcome(*d, st)->0);
        Ok(vals)
    }
}

/// The calls as the spec functions see them: each setter position as an
/// integer, with its argument.
pub open spec fn calls_view<V>(calls: Seq<(usize, V)>) -> Seq<(int, V)> {
    calls.map_values(|c: (usize, V)| (c.0 as int, c.1))
}

/// Runs the factory and then the setter calls in order, stopping at the first
/// call that is refused.
pub fn run_calls<V>(d: &Declarations, calls: Vec<(usize, V)>) -> (r: Result<Builder<V>, BuildError>)
    requires
        d.wf(),
    ensures
        match r {
            Ok(b) => run(*d, calls_view(calls@)) == Some(b@),
            Err(e) => run(*d, calls_view(calls@)) is None && !(e is Incomplete),
        },
{
    let ghost all = calls_view(calls@);
    let mut rest = calls;
    let mut b: Builder<V> = Builder::start(d);
    let ghost mut i: int = 0;
    proof {
        assert(all.take(0) =~= Seq::<(int, V)>::empty());
    }
    while rest.len() > 0
        invariant
            d.wf(),
            all == calls_view(calls@),
            i + rest@.len() == all.len(),
            0 <= i <= all.len(),
            calls_view(rest@) =~= all.skip(i),
            run(*d, all.take(i)) == Some(b@),
            b.fits_width(*d),
        decreases rest@.len(),
    {
        let ghost before = rest@;
        let (k, v) = rest.remove(0);
        proof {
            assert(calls_view(before)[0] == all.skip(i)[0]);
            assert(all[i] == (k as int, v));
            assert(all.take(i + 1).drop_last() =~= all.take(i));
        }
        b = match b.set(d, k, v) {
            Ok(next) => next,
            Err(e) => {
                proof {
                    lemma_refused_stays_refused(*d, all, i + 1);
                }
                return Err(e);
            },
        };
        proof {
            let old_i = i;
            i = i + 1;
            assert(rest@ =~= before.drop_first());
            assert forall|j: int| 0 <= j < rest@.len() implies calls_view(rest@)[j] == all.skip(i)[j] by {
                assert(calls_view(before)[j + 1] == all.skip(old_i)[j + 1]);
            }
            assert(calls_view(rest@) =~= all.skip(i));
        }
    }
    proof {
        assert(all.take(i) =~= all);
    }
    Ok(b)
}

/// Once a prefix of the calls is refused, so are all the calls.
proof fn lemma_refused_stays_refused<V>(d: Declarations, calls: Seq<(int, V)>, m: int)
    requires
        0 <= m <= calls.len(),
        run(d, calls.take(m)) is None,
    ensures
        run(d, calls) is None,
    decreases calls.len() - m,
{
    if m < calls.len() {
        assert(calls.take(m + 1).drop_last() =~= calls.take(m));
        lemma_refused_stays_refused(d, calls, m + 1);
    } else {
        assert(calls.take(m) =~= calls);
    }
}

/// Whether the flags fit the row.
fn fits_exec(row: &Vec<Marker>, flags: &Vec<bool>) -> (r: bool)
    ensures
        r == fits(row@, flags@),
{
    if row.len() != flags.len() {
        return false;
    }
    let mut j: usize = 0;
    while j < row.len()
        invariant
            j <= row.len(),
            row@.len() == flags@.len(),
            forall|i: int|
                0 <= i < j ==> match #[trigger] row@[i] {
                    Marker::Unset => !flags@[i],
                    Marker::Supplied => flags@[i],
                    Marker::Free => true,
                },
        decreases row.len() - j,
    {
        let ok = match row[j] {
            Marker::Unset => !flags[j],
            Marker::Supplied => flags[j],
            Marker::Free => true,
        };
        if !ok {
            return false;
        }
        j = j + 1;
    }
    true
}

} // verus!
