use cost_model::ast::{Captured, Directive, Field, FragmentDefinition, FragmentSpread, Selection, Value};
use cost_model::captures::{Captures, QueryVariables};
use cost_model::matching::{any_ok, match_directives, match_named_value, match_selections, match_value};

fn ival(v: i64) -> Value {
    Value::Int(v)
}

fn var(n: &str) -> Value {
    Value::Variable(n.to_string())
}

fn leaf(n: &str) -> Selection {
    Selection::Field(Field { name: n.to_string(), arguments: vec![], selection_set: vec![] })
}

fn mv(p: &Value, q: &Value) -> Result<bool, ()> {
    match_value(p, q, &QueryVariables::new(), &mut Captures::new())
}

#[test]
fn scalars_match_by_shape_and_value() {
    assert_eq!(mv(&ival(3), &ival(3)), Ok(true));
    assert_eq!(mv(&ival(3), &ival(4)), Ok(false));
    assert_eq!(mv(&ival(3), &Value::Boolean(true)), Ok(false));
    assert_eq!(mv(&Value::Str("x".to_string()), &Value::Str("x".to_string())), Ok(true));
    assert_eq!(mv(&Value::Enum("ASC".to_string()), &Value::Enum("DESC".to_string())), Ok(false));
    assert_eq!(mv(&Value::Null, &Value::Null), Ok(true));
    assert_eq!(mv(&Value::Float(1.5f64.to_bits()), &Value::Float(1.5f64.to_bits())), Ok(true));
    assert_eq!(mv(&Value::Float(1.5f64.to_bits()), &Value::Float(2.5f64.to_bits())), Ok(false));
}

#[test]
fn lists_match_exactly_in_order() {
    let l = |v: Vec<i64>| Value::List(v.into_iter().map(ival).collect());
    assert_eq!(mv(&l(vec![1, 2]), &l(vec![1, 2])), Ok(true));
    assert_eq!(mv(&l(vec![1, 2]), &l(vec![2, 1])), Ok(false));
    assert_eq!(mv(&l(vec![1, 2]), &l(vec![1, 2, 3])), Ok(false));
    assert_eq!(mv(&l(vec![]), &l(vec![])), Ok(true));
}

#[test]
fn objects_match_as_subset() {
    let o = |v: Vec<(&str, i64)>| Value::Object(v.into_iter().map(|(k, x)| (k.to_string(), ival(x))).collect());
    assert_eq!(mv(&o(vec![("age_gt", 18)]), &o(vec![("age_gt", 18), ("non", 1)])), Ok(true));
    assert_eq!(mv(&o(vec![("age_gt", 18)]), &o(vec![("age_gt", 21)])), Ok(false));
    assert_eq!(mv(&o(vec![("age_gt", 18), ("non", 1)]), &o(vec![("age_gt", 18)])), Ok(false));
    assert_eq!(mv(&o(vec![]), &o(vec![("a", 1)])), Ok(true));
}

#[test]
fn capture_binds_and_must_agree() {
    let vars = QueryVariables::new();
    let mut caps = Captures::new();
    assert_eq!(match_value(&var("x"), &ival(7), &vars, &mut caps), Ok(true));
    assert_eq!(caps.get(&"x".to_string()), Some(Captured::Int(7)));
    assert_eq!(match_value(&var("x"), &ival(7), &vars, &mut caps), Ok(true));
    assert_eq!(match_value(&var("x"), &ival(8), &vars, &mut caps), Ok(false));
    assert_eq!(caps.get(&"x".to_string()), Some(Captured::Int(7)));
    assert_eq!(match_value(&var("b"), &Value::Boolean(true), &vars, &mut caps), Ok(true));
    assert_eq!(caps.get(&"b".to_string()), Some(Captured::Bool(true)));
    // Other shapes match without a binding.
    assert_eq!(match_value(&var("s"), &Value::Str("q".to_string()), &vars, &mut caps), Ok(true));
    assert_eq!(caps.get(&"s".to_string()), None);
    assert_eq!(caps.entries.len(), 2);
}

#[test]
fn query_variables_are_resolved() {
    let vars = QueryVariables { entries: vec![("n".to_string(), ival(5)), ("loop".to_string(), var("n"))] };
    let mut caps = Captures::new();
    assert_eq!(match_value(&ival(5), &var("n"), &vars, &mut caps), Ok(true));
    assert_eq!(match_value(&ival(6), &var("n"), &vars, &mut caps), Ok(false));
    assert_eq!(match_value(&ival(5), &var("missing"), &vars, &mut caps), Err(()));
    assert_eq!(match_value(&ival(5), &var("loop"), &vars, &mut caps), Err(()));
    assert_eq!(match_value(&var("k"), &var("n"), &vars, &mut caps), Ok(true));
    assert_eq!(caps.get(&"k".to_string()), Some(Captured::Int(5)));
}

#[test]
fn named_values_need_equal_names() {
    let vars = QueryVariables::new();
    let mut caps = Captures::new();
    let p = ("skip".to_string(), ival(1));
    assert_eq!(match_named_value(&p, &("skip".to_string(), ival(1)), &vars, &mut caps), Ok(true));
    assert_eq!(match_named_value(&p, &("first".to_string(), ival(1)), &vars, &mut caps), Ok(false));
}

#[test]
fn fields_match_existentially() {
    let vars = QueryVariables::new();
    let p = Selection::Field(Field {
        name: "a".to_string(),
        arguments: vec![("skip".to_string(), var("s"))],
        selection_set: vec![leaf("id")],
    });
    let q = Selection::Field(Field {
        name: "a".to_string(),
        arguments: vec![("first".to_string(), ival(3)), ("skip".to_string(), ival(10))],
        selection_set: vec![leaf("name"), leaf("id")],
    });
    let mut caps = Captures::new();
    assert_eq!(match_selections(&p, &q, &[], &vars, &mut caps), Ok(true));
    assert_eq!(caps.get(&"s".to_string()), Some(Captured::Int(10)));
    let other = leaf("b");
    assert_eq!(match_selections(&p, &other, &[], &vars, &mut Captures::new()), Ok(false));
    assert_eq!(match_selections(&p, &Selection::InlineFragment, &[], &vars, &mut Captures::new()), Err(()));
}

#[test]
fn fragment_spreads_are_resolved() {
    let vars = QueryVariables::new();
    let spread = |d: bool| Selection::FragmentSpread(FragmentSpread { fragment_name: "f".to_string(), has_directives: d });
    let def = |d: bool| FragmentDefinition { name: "f".to_string(), has_directives: d, selection_set: vec![leaf("x"), leaf("id")] };
    let p = leaf("id");
    assert_eq!(match_selections(&p, &spread(false), &[def(false)], &vars, &mut Captures::new()), Ok(true));
    assert_eq!(match_selections(&leaf("zz"), &spread(false), &[def(false)], &vars, &mut Captures::new()), Ok(false));
    assert_eq!(match_selections(&p, &spread(true), &[def(false)], &vars, &mut Captures::new()), Err(()));
    assert_eq!(match_selections(&p, &spread(false), &[def(true)], &vars, &mut Captures::new()), Err(()));
    assert_eq!(match_selections(&p, &spread(false), &[], &vars, &mut Captures::new()), Err(()));
}

#[test]
fn fragment_cycles_end_in_error() {
    let vars = QueryVariables::new();
    let spread = Selection::FragmentSpread(FragmentSpread { fragment_name: "f".to_string(), has_directives: false });
    let spread2 = Selection::FragmentSpread(FragmentSpread { fragment_name: "f".to_string(), has_directives: false });
    let def = FragmentDefinition { name: "f".to_string(), has_directives: false, selection_set: vec![spread2] };
    assert_eq!(match_selections(&leaf("id"), &spread, &[def], &vars, &mut Captures::new()), Err(()));
}

#[test]
fn directives_are_unsupported() {
    let d = Directive { name: "skip".to_string(), arguments: vec![] };
    let mut caps = Captures::new();
    assert_eq!(match_directives(&d, &d, &[], &QueryVariables::new(), &mut caps), Err(()));
    assert_eq!(caps.entries.len(), 0);
}

#[test]
fn any_ok_takes_the_first_decision() {
    assert_eq!(any_ok::<()>(&vec![]), Ok(false));
    assert_eq!(any_ok::<()>(&vec![Ok(false), Ok(false)]), Ok(false));
    assert_eq!(any_ok::<u8>(&vec![Ok(false), Ok(true), Err(1)]), Ok(true));
    assert_eq!(any_ok::<u8>(&vec![Ok(false), Err(2), Ok(true)]), Err(2));
}
