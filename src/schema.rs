//! The schema of a record type: its name, its generic context and its fields,
//! each with the policies that its configuration attributes resolve to.
//!
//! A [`RawStruct`] is what the host parser hands over; [`parse`] resolves it,
//! once, into a [`Schema`] that the generators read and never re-interpret.
use vstd::prelude::*;
use vstd::string::*;
use crate::attrs::{builder_args, get_attr_value, has_attr_path, has_word, value_of, Attr};

verus! {

/// One generic parameter of the record: its name as it is written in a type's
/// arguments (`T`, `'a`, `N`), and its full declaration (`T: Default`,
/// `'a`, `const N: usize`).
pub struct GenericParam {
    pub name: String,
    pub decl: String,
}

/// The record's generic parameters and its `where` clause, both reproduced on
/// every generated declaration.
pub struct GenericContext {
    pub params: Vec<GenericParam>,
    pub where_clause: Option<String>,
}

/// A field as the host parser found it; `name` is `None` for a positional field.
pub struct RawField {
    pub name: Option<String>,
    pub ty: String,
    pub attrs: Vec<Attr>,
}

/// A record declaration as the host parser found it; `fields` is `None` when
/// the declaration is not a struct with a braced field list.
pub struct RawStruct {
    pub name: String,
    pub attrs: Vec<Attr>,
    pub generics: GenericContext,
    pub fields: Option<Vec<RawField>>,
}

/// What a field needs before the record can be finalized.
#[derive(Debug, PartialEq, Eq)]
pub enum Requirement {
    /// It must be supplied.
    Required,
    /// It must be supplied, even where the record makes fields default.
    Mandatory,
    /// It may be left out; it then takes its type's default value.
    Zero,
    /// It may be left out; it then takes the value of this expression.
    Expr(String),
}

/// A resolved field.
pub struct Field {
    pub name: String,
    pub ty: String,
    pub requirement: Requirement,
    /// Whether its setter may be called again once the field is set.
    pub repeatable: bool,
    pub setter_name: String,
}

/// A resolved record schema.
pub struct Schema {
    pub name: String,
    pub generics: GenericContext,
    pub fields: Vec<Field>,
    /// The name of the type that holds the factory.
    pub builder_name: String,
    /// The name of the builder-state type.
    pub state_name: String,
}

/// Why a record declaration cannot be given a builder.
#[derive(Debug, PartialEq, Eq)]
pub enum SchemaError {
    /// The declaration is not a struct with named fields.
    UnsupportedShape,
    /// The field at this position has no name.
    UnnamedField(usize),
    /// The field at this position is marked mandatory and also given a default.
    ConflictingConfig(usize),
}

impl GenericContext {
    /// A copy of the context, parameter for parameter.
    pub fn duplicate(&self) -> (r: GenericContext)
        ensures
            r.params@ == self.params@,
            r.where_clause == self.where_clause,
    {
        let mut params: Vec<GenericParam> = Vec::new();
        let mut i: usize = 0;
        while i < self.params.len()
            invariant
                i <= self.params@.len(),
                params@ =~= self.params@.take(i as int),
            decreases self.params.len() - i,
        {
            let p = &self.params[i];
            params.push(GenericParam { name: p.name.clone(), decl: p.decl.clone() });
            i = i + 1;
        }
        let where_clause = match &self.where_clause {
            Some(w) => Some(w.clone()),
            None => None,
        };
        GenericContext { params, where_clause }
    }
}

impl Requirement {
    /// Whether the field must be supplied before finalizing.
    pub open spec fn is_required(self) -> bool {
        self is Required || self is Mandatory
    }
}

/// Whether a field's arguments ask both for a mandatory value and for a default.
pub open spec fn conflicting(attrs: Seq<Attr>) -> bool {
    let args = builder_args(attrs);
    has_word(args, "mandatory"@) && (has_word(args, "default"@) || value_of(args, "default"@) is Some)
}

/// Whether `req` is what a field with these attributes resolves to, in a record
/// whose fields are defaulted unless marked otherwise (`all_default`).
pub open spec fn requirement_of(req: Requirement, attrs: Seq<Attr>, all_default: bool) -> bool {
    let args = builder_args(attrs);
    if has_word(args, "mandatory"@) {
        req is Mandatory
    } else {
        match value_of(args, "default"@) {
            Some(e) => req matches Requirement::Expr(x) && x@ == e,
            None => if has_word(args, "default"@) || all_default {
                req is Zero
            } else {
                req is Required
            },
        }
    }
}

/// Whether a field with these attributes may be set more than once, in a
/// record whose fields are repeatable unless marked otherwise (`all_multi`).
pub open spec fn repeatable_of(attrs: Seq<Attr>, all_multi: bool) -> bool {
    let args = builder_args(attrs);
    (all_multi && !has_word(args, "single"@)) || has_word(args, "multi"@)
}

/// The setter's name: the `setter_name` argument if given, else the field's name.
pub open spec fn setter_name_of(attrs: Seq<Attr>, name: Seq<char>) -> Seq<char> {
    match value_of(builder_args(attrs), "setter_name"@) {
        Some(s) => s,
        None => name,
    }
}

/// Whether `f` is the resolution of `raw` in a record with these defaults.
pub open spec fn resolves_field(raw: RawField, f: Field, all_default: bool, all_multi: bool) -> bool {
    &&& raw.name matches Some(n) && f.name@ == n@
    &&& f.ty@ == raw.ty@
    &&& requirement_of(f.requirement, raw.attrs@, all_default)
    &&& f.repeatable == repeatable_of(raw.attrs@, all_multi)
    &&& f.setter_name@ == setter_name_of(raw.attrs@, f.name@)
}

/// Whether a field cannot be resolved.
pub open spec fn field_error(raw: RawField) -> bool {
    raw.name is None || conflicting(raw.attrs@)
}

/// The names of the builder types: `<Name>Builder` and `<Name>BuilderState`,
/// or `<N>` and `<N>State` where the record carries `name = <N>`.
pub open spec fn builder_name_of(attrs: Seq<Attr>, name: Seq<char>) -> Seq<char> {
    match value_of(builder_args(attrs), "name"@) {
        Some(n) => n,
        None => name + "Builder"@,
    }
}

pub open spec fn state_name_of(attrs: Seq<Attr>, name: Seq<char>) -> Seq<char> {
    match value_of(builder_args(attrs), "name"@) {
        Some(n) => n + "State"@,
        None => name + "BuilderState"@,
    }
}

/// Whether `s` is the resolution of `raw` (whose fields are `fs`).
pub open spec fn resolves(raw: RawStruct, fs: Seq<RawField>, s: Schema) -> bool {
    let all_default = has_word(builder_args(raw.attrs@), "default"@);
    let all_multi = has_word(builder_args(raw.attrs@), "multi"@);
    &&& s.name@ == raw.name@
    &&& s.generics == raw.generics
    &&& s.builder_name@ == builder_name_of(raw.attrs@, raw.name@)
    &&& s.state_name@ == state_name_of(raw.attrs@, raw.name@)
    &&& s.fields@.len() == fs.len()
    &&& forall|i: int|
        0 <= i < fs.len() ==> resolves_field(#[trigger] fs[i], s.fields@[i], all_default, all_multi)
}

/// Resolves one field whose name is known and whose attributes do not conflict.
fn resolve_field(raw: &RawField, all_default: bool, all_multi: bool) -> (f: Field)
    requires
        !field_error(*raw),
    ensures
        resolves_field(*raw, f, all_default, all_multi),
{
    let name = match &raw.name {
        Some(n) => n.clone(),
        None => String::new(),
    };
    let requirement = if has_attr_path(&raw.attrs, "mandatory") {
        Requirement::Mandatory
    } else {
        match get_attr_value(&raw.attrs, "default") {
            Some(e) => Requirement::Expr(e),
            None => if has_attr_path(&raw.attrs, "default") || all_default {
                Requirement::Zero
            } else {
                Requirement::Required
            },
        }
    };
    let repeatable = (all_multi && !has_attr_path(&raw.attrs, "single")) || has_attr_path(
        &raw.attrs,
        "multi",
    );
    let setter_name = match get_attr_value(&raw.attrs, "setter_name") {
        Some(s) => s,
        None => name.clone(),
    };
    Field { name, ty: raw.ty.clone(), requirement, repeatable, setter_name }
}

/// Resolves the fields in order, stopping at the first one that has no name or
/// whose attributes conflict.
fn resolve_fields(raw_fields: &Vec<RawField>, all_default: bool, all_multi: bool) -> (r: Result<
    Vec<Field>,
    SchemaError,
>)
    ensures
        match r {
            Ok(out) => out@.len() == raw_fields@.len() && forall|i: int|
                0 <= i < raw_fields@.len() ==> !field_error(#[trigger] raw_fields@[i])
                    && resolves_field(raw_fields@[i], out@[i], all_default, all_multi),
            Err(SchemaError::UnnamedField(i)) => i < raw_fields@.len() && raw_fields@[i as int].name is None
                && forall|j: int| 0 <= j < i ==> !field_error(#[trigger] raw_fields@[j]),
            Err(SchemaError::ConflictingConfig(i)) => i < raw_fields@.len()
                && raw_fields@[i as int].name is Some && conflicting(raw_fields@[i as int].attrs@)
                && forall|j: int| 0 <= j < i ==> !field_error(#[trigger] raw_fields@[j]),
            Err(SchemaError::UnsupportedShape) => false,
        },
{
    let mut out: Vec<Field> = Vec::new();
    let mut i: usize = 0;
    while i < raw_fields.len()
        invariant
            0 <= i <= raw_fields.len(),
            out@.len() == i,
            forall|j: int|
                0 <= j < i ==> !field_error(#[trigger] raw_fields@[j]) && resolves_field(
                    raw_fields@[j],
                    out@[j],
                    all_default,
                    all_multi,
                ),
        decreases raw_fields.len() - i,
    {
        let rf = &raw_fields[i];
        if rf.name.is_none() {
            return Err(SchemaError::UnnamedField(i));
        }
        if has_attr_path(&rf.attrs, "mandatory") && (has_attr_path(&rf.attrs, "default")
            || get_attr_value(&rf.attrs, "default").is_some()) {
            return Err(SchemaError::ConflictingConfig(i));
        }
        let f = resolve_field(rf, all_default, all_multi);
        out.push(f);
        i = i + 1;
    }
    Ok(out)
}

/// Resolves a record declaration into a schema.
///
/// Fails on a declaration that is not a struct with named fields, and
/// otherwise on the first field that has no name or that is marked mandatory
/// while also given a default.
pub fn parse(raw: RawStruct) -> (r: Result<Schema, SchemaError>)
    ensures
        match raw.fields {
            None => r matches Err(SchemaError::UnsupportedShape),
            Some(fs) => match r {
                Ok(s) => resolves(raw, fs@, s) && forall|i: int|
                    0 <= i < fs@.len() ==> !field_error(#[trigger] fs@[i]),
                Err(SchemaError::UnnamedField(i)) => i < fs@.len() && fs@[i as int].name is None
                    && forall|j: int| 0 <= j < i ==> !field_error(#[trigger] fs@[j]),
                Err(SchemaError::ConflictingConfig(i)) => i < fs@.len() && fs@[i as int].name is Some
                    && conflicting(fs@[i as int].attrs@)
                    && forall|j: int| 0 <= j < i ==> !field_error(#[trigger] fs@[j]),
                Err(SchemaError::UnsupportedShape) => false,
            },
        },
{
    let raw_fields = match &raw.fields {
        Some(fs) => fs,
        None => {
            return Err(SchemaError::UnsupportedShape);
        },
    };
    let all_default = has_attr_path(&raw.attrs, "default");
    let all_multi = has_attr_path(&raw.attrs, "multi");
    let fields = match resolve_fields(raw_fields, all_default, all_multi) {
        Ok(out) => out,
        Err(e) => {
            return Err(e);
        },
    };
    let (builder_name, state_name) = match get_attr_value(&raw.attrs, "name") {
        Some(n) => {
            let state = n.clone().concat("State");
            (n, state)
        },
        None => (raw.name.clone().concat("Builder"), raw.name.clone().concat("BuilderState")),
    };
    let RawStruct { name, attrs: _, generics, fields: _ } = raw;
    Ok(Schema { name, generics, fields, builder_name, state_name })
}

} // verus!
