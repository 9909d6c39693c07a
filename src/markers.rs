//! The state encoding: one two-valued marker per field, telling whether the
//! field has been supplied.
//!
//! A declaration pins each marker to `Unset` or `Supplied`, or leaves it `Free`
//! (a parameter of the declaration). Every generator takes its rows of markers
//! from here, so that they all agree on the order and the names of the markers.
use vstd::prelude::*;
use vstd::string::*;
use crate::schema::Field;

verus! {

/// What a declaration says of one field's marker.
#[derive(Clone, Copy, Debug, PartialEq, Eq, Structural)]
pub enum Marker {
    Unset,
    Supplied,
    Free,
}

/// `n` markers, all `Free` but the one at `i`, which is `m`.
pub open spec fn marker_row(n: nat, i: int, m: Marker) -> Seq<Marker> {
    Seq::new(n, |j: int| if j == i { m } else { Marker::Free })
}

/// `n` markers, all equal to `m`.
pub open spec fn uniform_row(n: nat, m: Marker) -> Seq<Marker> {
    Seq::new(n, |j: int| m)
}

/// The row of a state that may be finalized: required fields `Supplied`, the others
/// `Free`.
pub open spec fn finalize_row(fields: Seq<Field>) -> Seq<Marker> {
    Seq::new(
        fields.len(),
        |j: int| if fields[j].requirement.is_required() { Marker::Supplied } else { Marker::Free },
    )
}

/// Builds `marker_row(n, i, m)`.
pub fn row_with(n: usize, i: usize, m: Marker) -> (r: Vec<Marker>)
    ensures
        r@ == marker_row(n as nat, i as int, m),
{
    let mut r: Vec<Marker> = Vec::new();
    let mut j: usize = 0;
    while j < n
        invariant
            j <= n,
            r@ == marker_row(j as nat, i as int, m),
        decreases n - j,
    {
        r.push(if j == i { m } else { Marker::Free });
        assert(r@ =~= marker_row((j + 1) as nat, i as int, m));
        j = j + 1;
    }
    r
}

/// Builds `uniform_row(n, m)`.
pub fn uniform(n: usize, m: Marker) -> (r: Vec<Marker>)
    ensures
        r@ == uniform_row(n as nat, m),
{
    let mut r: Vec<Marker> = Vec::new();
    let mut j: usize = 0;
    while j < n
        invariant
            j <= n,
            r@ == uniform_row(j as nat, m),
        decreases n - j,
    {
        r.push(m);
        assert(r@ =~= uniform_row((j + 1) as nat, m));
        j = j + 1;
    }
    r
}

/// Builds `finalize_row(fields@)`.
pub fn finalize_markers(fields: &Vec<Field>) -> (r: Vec<Marker>)
    ensures
        r@ == finalize_row(fields@),
{
    let mut r: Vec<Marker> = Vec::new();
    let mut j: usize = 0;
    while j < fields.len()
        invariant
            j <= fields.len(),
            r@ == finalize_row(fields@.take(j as int)),
        decreases fields.len() - j,
    {
        let m = match fields[j].requirement {
            crate::schema::Requirement::Required | crate::schema::Requirement::Mandatory => Marker::Supplied,
            _ => Marker::Free,
        };
        r.push(m);
        assert(r@ =~= finalize_row(fields@.take(j + 1)));
        j = j + 1;
    }
    assert(fields@.take(fields.len() as int) =~= fields@);
    r
}

/// What `str::to_uppercase` makes of a string.
pub uninterp spec fn upper_of(s: Seq<char>) -> Seq<char>;

/// Relies on `str::to_uppercase`: the upper-case form of a string depends on
/// its characters alone.
#[verifier::external_body]
fn uppercase(s: &str) -> (r: String)
    ensures
        r@ == upper_of(s@),
{
    s.to_uppercase()
}

/// The name of the parameter that stands for a field's marker.
pub open spec fn marker_name(field: Seq<char>) -> Seq<char> {
    "PLACEHOLDER"@ + upper_of(field) + "TYPE"@
}

/// The marker parameter names, one per field, in field order.
pub fn marker_names(fields: &Vec<Field>) -> (r: Vec<String>)
    ensures
        r@.len() == fields@.len(),
        forall|i: int| 0 <= i < fields@.len() ==> #[trigger] r@[i]@ == marker_name(fields@[i].name@),
{
    let mut r: Vec<String> = Vec::new();
    let mut j: usize = 0;
    while j < fields.len()
        invariant
            j <= fields.len(),
            r@.len() == j,
            forall|i: int| 0 <= i < j ==> #[trigger] r@[i]@ == marker_name(fields@[i].name@),
        decreases fields.len() - j,
    {
        let upper = uppercase(fields[j].name.as_str());
        let name = String::from_str("PLACEHOLDER").concat(upper.as_str()).concat("TYPE");
        r.push(name);
        j = j + 1;
    }
    r
}

} // verus!
