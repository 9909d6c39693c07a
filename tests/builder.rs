use type_safe_builder::attrs::{Attr, AttrArg};
use type_safe_builder::decls::{create_declarations, Declarations, Fill};
use type_safe_builder::machine::{run_calls, BuildError, Builder, Value};
use type_safe_builder::markers::Marker;
use type_safe_builder::schema::{
    parse, GenericContext, GenericParam, RawField, RawStruct, Requirement, Schema,
};

#[derive(Debug, PartialEq, Eq)]
enum Val {
    I(i64),
    S(String),
}

fn word(w: &str) -> AttrArg {
    AttrArg::Word(w.to_string())
}

fn assign(k: &str, v: &str) -> AttrArg {
    AttrArg::Assign(k.to_string(), v.to_string())
}

fn builder_attr(args: Vec<AttrArg>) -> Attr {
    Attr { path: "builder".to_string(), args: Some(args) }
}

fn field(name: &str, ty: &str, attrs: Vec<Attr>) -> RawField {
    RawField { name: Some(name.to_string()), ty: ty.to_string(), attrs }
}

fn generics(params: &[(&str, &str)], where_clause: Option<&str>) -> GenericContext {
    GenericContext {
        params: params
            .iter()
            .map(|(name, decl)| GenericParam { name: name.to_string(), decl: decl.to_string() })
            .collect(),
        where_clause: where_clause.map(|w| w.to_string()),
    }
}

fn record(name: &str, attrs: Vec<Attr>, fields: Vec<RawField>) -> RawStruct {
    RawStruct {
        name: name.to_string(),
        attrs,
        generics: generics(&[], None),
        fields: Some(fields),
    }
}

fn declare(raw: RawStruct) -> (Schema, Declarations) {
    let schema = parse(raw).expect("the record is accepted");
    let decls = create_declarations(&schema);
    (schema, decls)
}

fn set<V>(b: Builder<V>, d: &Declarations, setter: &str, v: V) -> Builder<V> {
    let k = d.setter_position(setter).expect("the setter exists");
    b.set(d, k, v).expect("the setter accepts the state")
}

fn build<V>(b: Builder<V>, d: &Declarations) -> Vec<Value<V>> {
    b.finalize(d).expect("the state may be finalized")
}

fn eval_i64(expr: &str) -> i64 {
    match expr {
        "<i64 as Default>::default() + 1" => <i64 as Default>::default() + 1,
        other => other.parse().expect("an integer literal"),
    }
}

fn as_i64(v: &Value<Val>) -> i64 {
    match v {
        Value::Given(Val::I(x)) => *x,
        Value::Zero => <i64 as Default>::default(),
        Value::Expr(e) => eval_i64(e),
        other => panic!("not an integer: {:?}", other),
    }
}

fn as_string(v: &Value<Val>) -> String {
    match v {
        Value::Given(Val::S(s)) => s.clone(),
        Value::Zero => String::default(),
        other => panic!("not a string: {:?}", other),
    }
}

fn given<V>(v: Value<V>) -> V {
    match v {
        Value::Given(x) => x,
        _ => panic!("the field was not supplied"),
    }
}

#[test]
fn can_derive_builder_for_struct_with_no_field() {
    let (_, d) = declare(record("StructWithNoField", vec![], vec![]));
    assert_eq!("StructWithNoFieldBuilder", d.factory.name);
    let _ = Builder::<Val>::start(&d);
}

#[test]
fn can_derive_builder_for_struct_with_fields() {
    let (_, d) = declare(record("StructWithField", vec![], vec![field("f", "i64", vec![])]));
    assert_eq!("StructWithFieldBuilder", d.factory.name);
    let _ = Builder::<Val>::start(&d);
}

#[test]
fn builder_has_set_methods() {
    let (_, d) = declare(record(
        "StructWithField",
        vec![],
        vec![field("f1", "i64", vec![]), field("f2", "String", vec![])],
    ));
    let b = Builder::start(&d);
    let b = set(b, &d, "f1", Val::I(1));
    let _ = set(b, &d, "f2", Val::S("string".to_string()));
}

#[test]
fn built_struct_has_fields_set() {
    let (_, d) = declare(record(
        "StructWithField",
        vec![],
        vec![field("f1", "String", vec![]), field("f2", "String", vec![])],
    ));
    let b = Builder::start(&d);
    let b = set(b, &d, "f1", "value f1".to_string());
    let b = set(b, &d, "f2", "value f2".to_string());
    let mut built = build(b, &d).into_iter();
    assert_eq!("value f1", given(built.next().unwrap()));
    assert_eq!("value f2", given(built.next().unwrap()));
}

#[test]
fn default_fields_do_not_need_to_be_set() {
    let (_, d) = declare(record(
        "StructWithField",
        vec![],
        vec![
            field("f1", "String", vec![]),
            field("f2", "i64", vec![builder_attr(vec![word("default")])]),
        ],
    ));
    let b = set(Builder::start(&d), &d, "f1", Val::S("value f1".to_string()));
    let built = build(b, &d);
    assert_eq!("value f1", as_string(&built[0]));
    assert_eq!(<i64 as Default>::default(), as_i64(&built[1]));
}

#[test]
fn default_fields_can_be_set_by_macro() {
    let (_, d) = declare(record(
        "StructWithField",
        vec![],
        vec![field("f1", "i64", vec![builder_attr(vec![assign("default", "10")])])],
    ));
    let built = build(Builder::<Val>::start(&d), &d);
    assert_eq!(10, as_i64(&built[0]));
}

#[test]
fn default_fields_can_be_set_as_code() {
    let (_, d) = declare(record(
        "StructWithField",
        vec![],
        vec![field(
            "f1",
            "i64",
            vec![builder_attr(vec![assign("default", "<i64 as Default>::default() + 1")])],
        )],
    ));
    let built = build(Builder::<Val>::start(&d), &d);
    assert_eq!(<i64 as Default>::default() + 1, as_i64(&built[0]));
}

#[test]
fn default_fields_can_be_overridden() {
    let (_, d) = declare(record(
        "StructWithField",
        vec![],
        vec![
            field("f1", "String", vec![]),
            field("f2", "i64", vec![builder_attr(vec![word("default")])]),
        ],
    ));
    let b = set(Builder::start(&d), &d, "f1", Val::S("value f1".to_string()));
    let b = set(b, &d, "f2", Val::I(1));
    let built = build(b, &d);
    assert_eq!("value f1", as_string(&built[0]));
    assert_eq!(1, as_i64(&built[1]));
}

#[test]
fn default_fields_with_value_can_be_overridden() {
    let (_, d) = declare(record(
        "StructWithField",
        vec![],
        vec![field("f1", "i64", vec![builder_attr(vec![assign("default", "10")])])],
    ));
    let b = set(Builder::start(&d), &d, "f1", Val::I(1));
    let built = build(b, &d);
    assert_eq!(1, as_i64(&built[0]));
}

#[test]
fn struct_can_be_configured_with_default_as_standard() {
    let (_, d) = declare(record(
        "StructWithField",
        vec![builder_attr(vec![word("default")])],
        vec![field("f1", "i64", vec![])],
    ));
    let built = build(Builder::<Val>::start(&d), &d);
    assert_eq!(i64::default(), as_i64(&built[0]));
}

#[test]
fn struct_can_be_configured_with_default_as_standard_and_mandatory_fields() {
    let (_, d) = declare(record(
        "StructWithField",
        vec![builder_attr(vec![word("default")])],
        vec![
            field("f1", "i64", vec![]),
            field("f2", "i64", vec![builder_attr(vec![word("mandatory")])]),
        ],
    ));
    let b = set(Builder::start(&d), &d, "f2", Val::I(1));
    let built = build(b, &d);
    assert_eq!(i64::default(), as_i64(&built[0]));
    assert_eq!(1, as_i64(&built[1]));
}

#[test]
fn field_default_with_value_works_with_struct_default() {
    let (_, d) = declare(record(
        "StructWithField",
        vec![builder_attr(vec![word("default")])],
        vec![
            field("f1", "i64", vec![]),
            field("f2", "i64", vec![builder_attr(vec![assign("default", "1")])]),
        ],
    ));
    let built = build(Builder::<Val>::start(&d), &d);
    assert_eq!(i64::default(), as_i64(&built[0]));
    assert_eq!(1, as_i64(&built[1]));
}

#[test]
fn accepts_fields_with_generic_args() {
    let (s, d) = declare(record(
        "StructWithField",
        vec![],
        vec![field("f1", "Option<i64>", vec![])],
    ));
    assert_eq!("Option<i64>", d.state.slots[0].ty);
    assert_eq!(Requirement::Required, s.fields[0].requirement);
    let b = set(Builder::start(&d), &d, "f1", Some(1i64));
    let built = build(b, &d);
    assert_eq!(Some(1), given(built.into_iter().next().unwrap()));
}

#[test]
fn works_with_fields_of_generic_type() {
    let mut raw = record("GenericStruct", vec![], vec![field("f1", "T", vec![])]);
    raw.generics = generics(&[("T", "T")], None);
    let (s, d) = declare(raw);
    assert_eq!("T", s.generics.params[0].name);
    let b = set(Builder::start(&d), &d, "f1", 1i64);
    let built = build(b, &d);
    assert_eq!(1, given(built.into_iter().next().unwrap()));
}

struct FieldStruct {
    content: i64,
}

struct OtherFieldStruct {
    content: i64,
}

#[test]
fn generic_fields_could_have_where() {
    let mut raw = record("GenericStruct", vec![], vec![field("f1", "T", vec![])]);
    raw.generics = generics(&[("T", "T")], Some("where T: TraitForField"));
    let (s, d) = declare(raw);
    assert_eq!(Some("where T: TraitForField".to_string()), s.generics.where_clause);
    assert_eq!(Some("where T: TraitForField".to_string()), d.generics.where_clause);
    assert_eq!("T", d.generics.params[0].decl);
    let b = set(Builder::start(&d), &d, "f1", FieldStruct { content: 1 });
    let built = given(build(b, &d).into_iter().next().unwrap());
    assert_eq!(1, built.content)
}

enum Either {
    L(FieldStruct),
    R(OtherFieldStruct),
}

#[test]
fn more_then_one_field_could_have_generics_and_where_clause() {
    let mut raw = record(
        "GenericStruct",
        vec![],
        vec![field("f1", "T", vec![]), field("f2", "K", vec![])],
    );
    raw.generics = generics(
        &[("T", "T"), ("K", "K")],
        Some("where T: TraitForField, K: OtherTraitForField"),
    );
    let (_, d) = declare(raw);
    let b = set(Builder::start(&d), &d, "f1", Either::L(FieldStruct { content: 1 }));
    let b = set(b, &d, "f2", Either::R(OtherFieldStruct { content: 2 }));
    let mut built = build(b, &d).into_iter();
    match given(built.next().unwrap()) {
        Either::L(f1) => assert_eq!(1, f1.content),
        Either::R(_) => panic!("f1 holds the first value"),
    }
    match given(built.next().unwrap()) {
        Either::R(f2) => assert_eq!(2, f2.content),
        Either::L(_) => panic!("f2 holds the second value"),
    }
}

#[derive(Default, Eq, PartialEq, Debug)]
struct StructWithDefault {
    v: i64,
}

#[test]
fn generic_fields_can_have_defaults() {
    let mut raw = record(
        "GenericStruct",
        vec![],
        vec![
            field("f1", "T", vec![builder_attr(vec![word("default")])]),
            field("f2", "K", vec![builder_attr(vec![word("default")])]),
        ],
    );
    raw.generics = generics(&[("T", "T"), ("K", "K: Default")], Some("where T: Default"));
    let (_, d) = declare(raw);
    let built: Vec<StructWithDefault> = build(Builder::<StructWithDefault>::start(&d), &d)
        .into_iter()
        .map(|v| match v {
            Value::Given(x) => x,
            Value::Zero => StructWithDefault::default(),
            Value::Expr(e) => panic!("unexpected expression {}", e),
        })
        .collect();
    assert_eq!(StructWithDefault::default(), built[0]);
    assert_eq!(StructWithDefault::default(), built[1]);
}

#[test]
fn can_build_structs_with_timelines() {
    let mut raw = record("TimelineStruct", vec![], vec![field("f1", "&'a String", vec![])]);
    raw.generics = generics(&[("'a", "'a")], None);
    let (_, d) = declare(raw);
    let string = "a string".to_string();
    let b = set(Builder::start(&d), &d, "f1", &string);
    let built = given(build(b, &d).into_iter().next().unwrap());
    assert_eq!("a string".to_string(), built.to_owned())
}

#[test]
fn can_build_structs_with_generics_timelines_and_constraints() {
    let mut raw = record("TimelineStruct", vec![], vec![field("f1", "&'a T", vec![])]);
    raw.generics = generics(&[("'a", "'a"), ("T", "T: TraitForField")], None);
    let (_, d) = declare(raw);
    let names: Vec<&str> = d.generics.params.iter().map(|p| p.name.as_str()).collect();
    let decls: Vec<&str> = d.generics.params.iter().map(|p| p.decl.as_str()).collect();
    assert_eq!(vec!["'a", "T"], names);
    assert_eq!(vec!["'a", "T: TraitForField"], decls);
    let referenced_struct = FieldStruct { content: 1 };
    let b = set(Builder::start(&d), &d, "f1", &referenced_struct);
    let built = given(build(b, &d).into_iter().next().unwrap());
    assert_eq!(1, built.content);
}

#[test]
fn works_with_const_generics() {
    let mut raw = record("ConstGenericStruct", vec![], vec![]);
    raw.generics = generics(&[("T", "const T: bool")], None);
    let (_, d) = declare(raw);
    assert_eq!("ConstGenericStructBuilderState", d.state.name);
    let builder = Builder::<Val>::start(&d);
    let _built = builder.finalize(&d).expect("a record without fields is complete");
}

#[test]
fn one_setter_per_field_named_after_it() {
    let (_, d) = declare(record(
        "Named",
        vec![],
        vec![
            field("a", "i64", vec![]),
            field("b", "i64", vec![builder_attr(vec![assign("setter_name", "with_b")])]),
            field("c", "i64", vec![]),
        ],
    ));
    assert_eq!(3, d.setters.len());
    let names: Vec<&str> = d.setters.iter().map(|s| s.name.as_str()).collect();
    assert_eq!(vec!["a", "with_b", "c"], names);
    assert_eq!(Some(1), d.setter_position("with_b"));
    assert_eq!(None, d.setter_position("b"));
    for (i, s) in d.setters.iter().enumerate() {
        assert_eq!(i, s.field);
    }
}

#[test]
fn setter_order_does_not_matter() {
    let (_, d) = declare(record(
        "Pair",
        vec![],
        vec![
            field("f1", "i64", vec![]),
            field("f2", "i64", vec![]),
            field("f3", "i64", vec![builder_attr(vec![word("default")])]),
        ],
    ));
    let b = set(Builder::start(&d), &d, "f1", Val::I(1));
    let b = set(b, &d, "f2", Val::I(2));
    let first = build(b, &d);
    let b = set(Builder::start(&d), &d, "f2", Val::I(2));
    let b = set(b, &d, "f1", Val::I(1));
    let second = build(b, &d);
    assert_eq!(first, second);
    assert_eq!(vec![Value::Given(Val::I(1)), Value::Given(Val::I(2)), Value::Zero], first);
}

#[test]
fn single_field_cannot_be_set_twice() {
    let (s, d) = declare(record(
        "StructToBuild",
        vec![builder_attr(vec![word("multi")])],
        vec![field("field", "i64", vec![builder_attr(vec![word("single")])])],
    ));
    assert!(!s.fields[0].repeatable);
    assert_eq!(vec![Marker::Unset], d.setters[0].input);
    let b = set(Builder::start(&d), &d, "field", Val::I(1));
    assert_eq!(Some(BuildError::AlreadySet(0)), b.set(&d, 0, Val::I(2)).err());
}

#[test]
fn repeatable_field_keeps_last_value() {
    let (s, d) = declare(record(
        "Multi",
        vec![],
        vec![field("f", "i64", vec![builder_attr(vec![word("multi")])])],
    ));
    assert!(s.fields[0].repeatable);
    assert_eq!(vec![Marker::Free], d.setters[0].input);
    let b = set(Builder::start(&d), &d, "f", Val::I(1));
    let b = set(b, &d, "f", Val::I(2));
    assert_eq!(vec![Value::Given(Val::I(2))], build(b, &d));
}

#[test]
fn record_level_multi_makes_fields_repeatable() {
    let (s, _) = declare(record(
        "Multi",
        vec![builder_attr(vec![word("multi")])],
        vec![field("f", "i64", vec![])],
    ));
    assert!(s.fields[0].repeatable);
}

#[test]
fn defaults_apply_only_when_left_out() {
    let (_, d) = declare(record(
        "Defaults",
        vec![],
        vec![
            field("zero", "i64", vec![builder_attr(vec![word("default")])]),
            field("ten", "i64", vec![builder_attr(vec![assign("default", "10")])]),
        ],
    ));
    assert_eq!(vec![Fill::OrZero, Fill::OrExpr("10".to_string())], d.finalize.fills);
    let left_out = build(Builder::<Val>::start(&d), &d);
    assert_eq!(vec![Value::Zero, Value::Expr("10".to_string())], left_out);
    let b = set(Builder::start(&d), &d, "zero", Val::I(5));
    let b = set(b, &d, "ten", Val::I(6));
    assert_eq!(vec![Value::Given(Val::I(5)), Value::Given(Val::I(6))], build(b, &d));
}

#[test]
fn all_values_come_back() {
    let (_, d) = declare(record(
        "Three",
        vec![],
        vec![
            field("a", "i64", vec![]),
            field("b", "i64", vec![builder_attr(vec![word("default")])]),
            field("c", "i64", vec![builder_attr(vec![assign("default", "3")])]),
        ],
    ));
    let mut b = Builder::start(&d);
    for (k, v) in [7i64, 8, 9].into_iter().enumerate() {
        b = b.set(&d, k, v).unwrap();
    }
    assert_eq!(vec![Value::Given(7), Value::Given(8), Value::Given(9)], b.finalize(&d).unwrap());
}

#[test]
fn scenario_two_required_fields() {
    let (_, d) = declare(record(
        "Rec",
        vec![],
        vec![field("f1", "i64", vec![]), field("f2", "String", vec![])],
    ));
    let b = set(Builder::start(&d), &d, "f1", Val::I(1));
    let b = set(b, &d, "f2", Val::S("x".to_string()));
    assert_eq!(
        vec![Value::Given(Val::I(1)), Value::Given(Val::S("x".to_string()))],
        build(b, &d)
    );
}

#[test]
fn scenario_mandatory_under_record_default() {
    let (s, d) = declare(record(
        "Rec",
        vec![builder_attr(vec![word("default")])],
        vec![
            field("a", "i64", vec![]),
            field("m", "i64", vec![builder_attr(vec![word("mandatory")])]),
            field("b", "String", vec![]),
        ],
    ));
    assert_eq!(Requirement::Mandatory, s.fields[1].requirement);
    assert_eq!(vec![Marker::Free, Marker::Supplied, Marker::Free], d.finalize.input);
    assert_eq!(Some(BuildError::Incomplete), Builder::<Val>::start(&d).finalize(&d).err());
    let b = set(Builder::start(&d), &d, "m", Val::I(4));
    assert_eq!(vec![Value::Zero, Value::Given(Val::I(4)), Value::Zero], build(b, &d));
}

#[test]
fn missing_required_field_is_incomplete() {
    let (_, d) = declare(record(
        "Rec",
        vec![],
        vec![field("f1", "i64", vec![]), field("f2", "i64", vec![])],
    ));
    let b = set(Builder::start(&d), &d, "f1", Val::I(1));
    assert_eq!(Some(BuildError::Incomplete), b.finalize(&d).err());
}

#[test]
fn unknown_setter_is_refused() {
    let (_, d) = declare(record("Rec", vec![], vec![field("f1", "i64", vec![])]));
    assert_eq!(
        Some(BuildError::NoSuchSetter(3)),
        Builder::<Val>::start(&d).set(&d, 3, Val::I(1)).err()
    );
}

#[test]
fn declarations_encode_the_states() {
    let (_, d) = declare(record(
        "Rec",
        vec![],
        vec![
            field("first", "i64", vec![]),
            field("second", "i64", vec![builder_attr(vec![word("default")])]),
        ],
    ));
    assert_eq!("RecBuilderState", d.state.name);
    assert_eq!("Rec", d.finalize.record);
    assert_eq!(vec!["PLACEHOLDERFIRSTTYPE", "PLACEHOLDERSECONDTYPE"], d.state.markers);
    assert_eq!(vec![Marker::Unset, Marker::Unset], d.factory.markers);
    assert_eq!(vec![Marker::Unset, Marker::Free], d.setters[0].input);
    assert_eq!(vec![Marker::Supplied, Marker::Free], d.setters[0].output);
    assert_eq!(vec![Marker::Free, Marker::Unset], d.setters[1].input);
    assert_eq!(vec![Marker::Free, Marker::Supplied], d.setters[1].output);
    assert_eq!(vec![Marker::Supplied, Marker::Free], d.finalize.input);
    assert_eq!(vec![Fill::Unwrap, Fill::OrZero], d.finalize.fills);
}

#[test]
fn builder_name_can_be_configured() {
    let (_, d) = declare(record(
        "Rec",
        vec![builder_attr(vec![assign("name", "Maker")])],
        vec![],
    ));
    assert_eq!("Maker", d.factory.name);
    assert_eq!("MakerState", d.state.name);
}

#[test]
fn only_the_first_builder_attribute_counts() {
    let other = Attr { path: "serde".to_string(), args: Some(vec![word("default")]) };
    let unparsed = Attr { path: "builder".to_string(), args: None };
    let (s, _) = declare(record(
        "Rec",
        vec![],
        vec![
            field("a", "i64", vec![other, builder_attr(vec![word("default")])]),
            field("b", "i64", vec![unparsed, builder_attr(vec![word("default")])]),
        ],
    ));
    assert_eq!(Requirement::Zero, s.fields[0].requirement);
    assert_eq!(Requirement::Required, s.fields[1].requirement);
}

#[test]
fn enum_is_rejected() {
    let raw = RawStruct {
        name: "E".to_string(),
        attrs: vec![],
        generics: generics(&[], None),
        fields: None,
    };
    assert_eq!(Some(type_safe_builder::schema::SchemaError::UnsupportedShape), parse(raw).err());
}

#[test]
fn positional_field_is_rejected() {
    let raw = record(
        "T",
        vec![],
        vec![field("a", "i64", vec![]), RawField { name: None, ty: "i64".to_string(), attrs: vec![] }],
    );
    assert_eq!(Some(type_safe_builder::schema::SchemaError::UnnamedField(1)), parse(raw).err());
}

#[test]
fn mandatory_with_default_is_rejected() {
    let raw = record(
        "T",
        vec![],
        vec![field("a", "i64", vec![builder_attr(vec![word("mandatory"), assign("default", "3")])])],
    );
    assert_eq!(
        Some(type_safe_builder::schema::SchemaError::ConflictingConfig(0)),
        parse(raw).err()
    );
}

#[test]
fn scenario_required_and_zero_default() {
    let (_, d) = declare(record(
        "Rec",
        vec![],
        vec![
            field("f1", "String", vec![]),
            field("f2", "i64", vec![builder_attr(vec![word("default")])]),
        ],
    ));
    let b = set(Builder::start(&d), &d, "f1", Val::S("v".to_string()));
    let built = build(b, &d);
    assert_eq!("v", as_string(&built[0]));
    assert_eq!(0, as_i64(&built[1]));
}

#[test]
fn scenario_expression_default() {
    let (_, d) = declare(record(
        "Rec",
        vec![],
        vec![field("f1", "i64", vec![builder_attr(vec![assign("default", "10")])])],
    ));
    assert_eq!(10, as_i64(&build(Builder::<Val>::start(&d), &d)[0]));
    let b = set(Builder::start(&d), &d, "f1", Val::I(1));
    assert_eq!(1, as_i64(&build(b, &d)[0]));
}

#[test]
fn call_sequences_in_any_order_agree() {
    let (_, d) = declare(record(
        "Rec",
        vec![],
        vec![
            field("a", "i64", vec![]),
            field("b", "i64", vec![builder_attr(vec![word("default")])]),
            field("c", "i64", vec![]),
        ],
    ));
    let one = run_calls(&d, vec![(0, 1i64), (2, 3), (1, 2)]).unwrap();
    let two = run_calls(&d, vec![(1, 2i64), (0, 1), (2, 3)]).unwrap();
    assert_eq!(one.flags, two.flags);
    assert_eq!(one.finalize(&d).unwrap(), two.finalize(&d).unwrap());
    let partial = run_calls(&d, vec![(2, 3i64)]).unwrap();
    assert_eq!(vec![false, false, true], partial.flags);
    assert_eq!(Some(BuildError::Incomplete), partial.finalize(&d).err());
}

#[test]
fn call_sequence_with_repeated_single_field_is_refused() {
    let (_, d) = declare(record("Rec", vec![], vec![field("f", "i64", vec![])]));
    assert_eq!(Some(BuildError::AlreadySet(0)), run_calls(&d, vec![(0, 1i64), (0, 2)]).err());
    assert_eq!(Some(BuildError::NoSuchSetter(4)), run_calls(&d, vec![(4, 1i64)]).err());
}
