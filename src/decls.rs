//! The declarations that make up a builder, in abstract form: the factory, the
//! state type, one setter per field and the finalize operation.
//!
//! Each generator reads the schema alone. The schema's generic context is
//! carried once, unchanged, beside the declarations, and goes on every one of
//! them when they are rendered.
use vstd::prelude::*;
use vstd::string::*;
use crate::markers::{
    finalize_markers, finalize_row, marker_name, marker_names, marker_row, row_with, uniform,
    uniform_row, Marker,
};
use crate::schema::{Field, GenericContext, Requirement, Schema};

verus! {

/// One value slot of the state type: an optional value of the field's type.
pub struct Slot {
    pub name: String,
    pub ty: String,
}

/// The builder-state type: one slot per field, and one marker parameter per
/// field after the record's own generic parameters.
pub struct StateType {
    pub name: String,
    pub markers: Vec<String>,
    pub slots: Vec<Slot>,
}

/// The factory: a type named `name` whose one operation returns the state with
/// every slot empty and these markers.
pub struct Factory {
    pub name: String,
    pub markers: Vec<Marker>,
}

/// A setter: it takes a state whose markers fit `input`, stores its argument in
/// the slot of field `field`, copies the other slots, and returns the state
/// whose markers are `output` (a `Free` marker is carried over unchanged).
pub struct Setter {
    pub name: String,
    pub field: usize,
    pub input: Vec<Marker>,
    pub output: Vec<Marker>,
}

/// How finalize obtains one field of the record.
#[derive(Debug, PartialEq, Eq)]
pub enum Fill {
    /// The slot is known to be filled.
    Unwrap,
    /// The slot's value, or the type's default value when it is empty.
    OrZero,
    /// The slot's value, or the value of this expression when it is empty.
    OrExpr(String),
}

/// The finalize operation: it takes a state whose markers fit `input` and
/// builds the record named `record`, field by field, as `fills` says.
pub struct Finalize {
    pub record: String,
    pub input: Vec<Marker>,
    pub fills: Vec<Fill>,
}

/// All the declarations of one builder, and the generic context that each of
/// them carries.
pub struct Declarations {
    pub generics: GenericContext,
    pub factory: Factory,
    pub state: StateType,
    pub setters: Vec<Setter>,
    pub finalize: Finalize,
}

/// The fill that a field's requirement calls for.
pub open spec fn fill_for(req: Requirement, fill: Fill) -> bool {
    match req {
        Requirement::Required | Requirement::Mandatory => fill is Unwrap,
        Requirement::Zero => fill is OrZero,
        Requirement::Expr(e) => fill matches Fill::OrExpr(x) && x@ == e@,
    }
}

/// Whether `s` is the setter of field `i` of `fields`.
pub open spec fn is_setter_of(s: Setter, fields: Seq<Field>, i: int) -> bool {
    let n = fields.len();
    &&& s.field == i
    &&& s.name@ == fields[i].setter_name@
    &&& s.input@ == marker_row(
        n,
        i,
        if fields[i].repeatable { Marker::Free } else { Marker::Unset },
    )
    &&& s.output@ == marker_row(n, i, Marker::Supplied)
}

/// Whether `f` is the finalize operation for `schema`.
pub open spec fn is_finalize_of(f: Finalize, schema: Schema) -> bool {
    let fields = schema.fields@;
    &&& f.record@ == schema.name@
    &&& f.input@ == finalize_row(fields)
    &&& f.fills@.len() == fields.len()
    &&& forall|j: int| 0 <= j < fields.len() ==> fill_for(fields[j].requirement, #[trigger] f.fills@[j])
}

/// Whether `t` is the state type for `schema`.
pub open spec fn is_state_type_of(t: StateType, schema: Schema) -> bool {
    let fields = schema.fields@;
    &&& t.name@ == schema.state_name@
    &&& t.markers@.len() == fields.len()
    &&& t.slots@.len() == fields.len()
    &&& forall|j: int|
        0 <= j < fields.len() ==> {
            &&& #[trigger] t.markers@[j]@ == marker_name(fields[j].name@)
            &&& t.slots@[j].name@ == fields[j].name@
            &&& t.slots@[j].ty@ == fields[j].ty@
        }
}

impl Declarations {
    /// The number of fields, as the state type counts them.
    pub open spec fn width(self) -> nat {
        self.state.slots@.len()
    }

    /// The declarations agree on the number of fields.
    pub open spec fn wf(self) -> bool {
        let n = self.width();
        &&& self.factory.markers@.len() == n
        &&& self.finalize.input@.len() == n
        &&& self.finalize.fills@.len() == n
        &&& forall|k: int|
            0 <= k < self.setters@.len() ==> {
                &&& #[trigger] self.setters@[k].field < n
                &&& self.setters@[k].input@.len() == n
                &&& self.setters@[k].output@.len() == n
            }
    }

    /// Whether these are exactly the declarations generated for `schema`.
    pub open spec fn describes(self, schema: Schema) -> bool {
        let fields = schema.fields@;
        &&& self.generics.params@ == schema.generics.params@
        &&& self.generics.where_clause == schema.generics.where_clause
        &&& self.factory.name@ == schema.builder_name@
        &&& self.factory.markers@ == uniform_row(fields.len(), Marker::Unset)
        &&& is_state_type_of(self.state, schema)
        &&& self.setters@.len() == fields.len()
        &&& forall|i: int| 0 <= i < fields.len() ==> is_setter_of(#[trigger] self.setters@[i], fields, i)
        &&& is_finalize_of(self.finalize, schema)
    }
}

impl Declarations {
    /// The position of the first setter named `name`.
    pub fn setter_position(&self, name: &str) -> (r: Option<usize>)
        ensures
            match r {
                Some(k) => k < self.setters@.len() && self.setters@[k as int].name@ == name@
                    && forall|i: int| 0 <= i < k ==> (#[trigger] self.setters@[i]).name@ != name@,
                None => forall|i: int|
                    0 <= i < self.setters@.len() ==> (#[trigger] self.setters@[i]).name@ != name@,
            },
    {
        let wanted = String::from_str(name);
        let mut k: usize = 0;
        while k < self.setters.len()
            invariant
                k <= self.setters@.len(),
                wanted@ == name@,
                forall|i: int| 0 <= i < k ==> (#[trigger] self.setters@[i]).name@ != name@,
            decreases self.setters.len() - k,
        {
            if self.setters[k].name == wanted {
                return Some(k);
            }
            k = k + 1;
        }
        None
    }
}

/// The factory of the builder for `schema`.
pub fn create_factory(schema: &Schema) -> (r: Factory)
    ensures
        r.name@ == schema.builder_name@,
        r.markers@ == uniform_row(schema.fields@.len(), Marker::Unset),
{
    Factory { name: schema.builder_name.clone(), markers: uniform(schema.fields.len(), Marker::Unset) }
}

/// The builder-state type for `schema`.
pub fn create_state_type(schema: &Schema) -> (r: StateType)
    ensures
        is_state_type_of(r, *schema),
{
    let markers = marker_names(&schema.fields);
    let mut slots: Vec<Slot> = Vec::new();
    let mut j: usize = 0;
    while j < schema.fields.len()
        invariant
            j <= schema.fields.len(),
            slots@.len() == j,
            forall|k: int|
                0 <= k < j ==> #[trigger] slots@[k].name@ == schema.fields@[k].name@
                    && slots@[k].ty@ == schema.fields@[k].ty@,
        decreases schema.fields.len() - j,
    {
        let f = &schema.fields[j];
        slots.push(Slot { name: f.name.clone(), ty: f.ty.clone() });
        j = j + 1;
    }
    StateType { name: schema.state_name.clone(), markers, slots }
}

/// The setter of field `i`: it needs the field's marker `Unset`, unless the
/// field is repeatable, leaves every other marker free, and turns the field's
/// marker to `Supplied`.
pub fn create_setter(schema: &Schema, i: usize) -> (r: Setter)
    requires
        i < schema.fields@.len(),
    ensures
        is_setter_of(r, schema.fields@, i as int),
{
    let n = schema.fields.len();
    let f = &schema.fields[i];
    let own = if f.repeatable { Marker::Free } else { Marker::Unset };
    Setter {
        name: f.setter_name.clone(),
        field: i,
        input: row_with(n, i, own),
        output: row_with(n, i, Marker::Supplied),
    }
}

/// The setters of all fields, in field order.
pub fn create_setters(schema: &Schema) -> (r: Vec<Setter>)
    ensures
        r@.len() == schema.fields@.len(),
        forall|i: int| 0 <= i < r@.len() ==> is_setter_of(#[trigger] r@[i], schema.fields@, i),
{
    let mut r: Vec<Setter> = Vec::new();
    let mut i: usize = 0;
    while i < schema.fields.len()
        invariant
            i <= schema.fields.len(),
            r@.len() == i,
            forall|k: int| 0 <= k < i ==> is_setter_of(#[trigger] r@[k], schema.fields@, k),
        decreases schema.fields.len() - i,
    {
        r.push(create_setter(schema, i));
        i = i + 1;
    }
    r
}

/// The finalize operation: it needs every required field's marker `Supplied`,
/// leaves the others free, and fills each field as its requirement says.
pub fn create_finalize(schema: &Schema) -> (r: Finalize)
    ensures
        is_finalize_of(r, *schema),
{
    let mut fills: Vec<Fill> = Vec::new();
    let mut j: usize = 0;
    while j < schema.fields.len()
        invariant
            j <= schema.fields.len(),
            fills@.len() == j,
            forall|k: int| 0 <= k < j ==> fill_for(schema.fields@[k].requirement, #[trigger] fills@[k]),
        decreases schema.fields.len() - j,
    {
        let fill = match &schema.fields[j].requirement {
            Requirement::Required | Requirement::Mandatory => Fill::Unwrap,
            Requirement::Zero => Fill::OrZero,
            Requirement::Expr(e) => Fill::OrExpr(e.clone()),
        };
        fills.push(fill);
        j = j + 1;
    }
    Finalize { record: schema.name.clone(), input: finalize_markers(&schema.fields), fills }
}

/// All the declarations of the builder for `schema`.
pub fn create_declarations(schema: &Schema) -> (r: Declarations)
    ensures
        r.describes(*schema),
        r.wf(),
{
    Declarations {
        generics: schema.generics.duplicate(),
        factory: create_factory(schema),
        state: create_state_type(schema),
        setters: create_setters(schema),
        finalize: create_finalize(schema),
    }
}

} // verus!
