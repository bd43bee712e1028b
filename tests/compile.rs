use cost_model::ast::{Captured, Field, FragmentDefinition, FragmentSpread, Selection, Value};
use cost_model::captures::{Captures, QueryVariables};
use cost_model::model::{captures_distinct, CompileError, CostModel, Predicate};

fn field(name: &str, arguments: Vec<(&str, Value)>, selection_set: Vec<Selection>) -> Selection {
    Selection::Field(Field {
        name: name.to_string(),
        arguments: arguments.into_iter().map(|(k, v)| (k.to_string(), v)).collect(),
        selection_set,
    })
}

fn first(model: &CostModel, from: usize, sel: &Selection, frags: &[FragmentDefinition]) -> Option<(usize, Captures)> {
    model.first_match(from, sel, frags, &QueryVariables::new())
}

#[test]
fn invalid_model() {
    for case in &[
        // Missing semicolon between 2 statements
        "query { a } => 1 query { b } => 2;",
        // Garbage data after valid statement
        "query { a } => 1; garbage",
    ] {
        assert!(CostModel::compile(*case, "").is_err());
    }
}

/// If we try to capture to the same name in 2 positions, this should fail to compile
#[test]
fn capture_twice_fails_to_compile() {
    let model = "query { tokens(first: $skip, skip: $skip) } => 1;";
    assert!(CostModel::compile(model, "").is_err());
}

#[test]
fn capture_twice_is_its_own_error() {
    let model = "query { tokens(first: $skip, skip: $skip) } => 1;";
    assert_eq!(CostModel::compile(model, "").unwrap_err(), CompileError::CaptureReused);
    let nested = "query { a(where: { x: [$v, { y: $v }] }) } => 1;";
    assert_eq!(CostModel::compile(nested, "").unwrap_err(), CompileError::CaptureReused);
    let apart = "query { a(x: $v) { b(y: $w) } } => $v + $w;";
    assert!(CostModel::compile(apart, "").is_ok());
}

#[test]
fn default_with_when_is_refused() {
    let model = "default when $COND => 1; default => 2;";
    assert_eq!(CostModel::compile(model, "").unwrap_err(), CompileError::DefaultWithWhen);
}

#[test]
fn compiles_statements_in_order() {
    let model = "
        query { a } when true => 11;
        query { b } when false => 12;
        query { b } when 1 == 1 => 2 + 2;
        # Never used, because the above matches the same conditions.
        query { b } when true => 7;
    ";
    let m = CostModel::compile(model, "").unwrap();
    assert_eq!(m.statements.len(), 4);
    assert!(m.statements[0].when.is_some());
    match &m.statements[2].predicate {
        Predicate::Selection(Selection::Field(f)) => assert_eq!(f.name, "b"),
        _ => panic!("expected a field predicate"),
    }
    assert!(CostModel::compile("default => 1", "").is_ok());
    assert!(CostModel::compile("", "").is_err());
    assert!(CostModel::compile("default => ;", "").is_err());
    assert!(CostModel::compile("query { a b } => 1;", "").is_err());
}

#[test]
fn globals_are_an_object() {
    let m = CostModel::compile("default => $GLOBAL;", "{ \"GLOBAL\": 15, \"B\": true }").unwrap();
    assert_eq!(m.globals.len(), 2);
    assert_eq!(m.globals[0].0, "GLOBAL");
    assert!(matches!(m.globals[0].1, Value::Int(15)));
    assert!(matches!(m.globals[1].1, Value::Boolean(true)));
    assert_eq!(CostModel::compile("default => 1;", "[1]").unwrap_err(), CompileError::Globals);
    assert_eq!(CostModel::compile("default => 1;", "{ \"A\": 1 } x").unwrap_err(), CompileError::Globals);
}

#[test]
fn captures_distinct_on_selections() {
    let once = field("a", vec![("x", Value::Variable("v".to_string()))], vec![]);
    assert!(captures_distinct(&once));
    let twice = field(
        "a",
        vec![("x", Value::Variable("v".to_string()))],
        vec![field("b", vec![("y", Value::Variable("v".to_string()))], vec![])],
    );
    assert!(!captures_distinct(&twice));
}

#[test]
fn first_match_wins_and_resumes() {
    let model = "
        query { a(skip: $s) } when $s > 10 => $s * 2;
        query { a } => 55;
    ";
    let m = CostModel::compile(model, "").unwrap();
    let q = field("a", vec![("skip", Value::Int(11))], vec![]);
    let (k, caps) = first(&m, 0, &q, &[]).unwrap();
    assert_eq!(k, 0);
    assert_eq!(caps.get(&"s".to_string()), Some(Captured::Int(11)));
    let (k, caps) = first(&m, 1, &q, &[]).unwrap();
    assert_eq!(k, 1);
    assert_eq!(caps.entries.len(), 0);
    let b = field("b", vec![], vec![]);
    assert!(first(&m, 0, &b, &[]).is_none());
}

#[test]
fn default_matches_anything() {
    let m = CostModel::compile("query { abc } => 2; default => 10;", "").unwrap();
    let q = field("nonsense", vec![], vec![]);
    let (k, caps) = first(&m, 0, &q, &[]).unwrap();
    assert_eq!(k, 1);
    assert_eq!(caps.entries.len(), 0);
}

#[test]
fn matching_object_statements() {
    let model = "
        query { a(where: { age_gt: 18 }) } => 1;
        query { a(where: $where) } => 2;
        default => 3;
    ";
    let m = CostModel::compile(model, "").unwrap();
    let obj = |entries: Vec<(&str, i64)>| {
        Value::Object(entries.into_iter().map(|(k, v)| (k.to_string(), Value::Int(v))).collect())
    };
    let q1 = field("a", vec![("where", obj(vec![("age_gt", 18), ("non", 1)]))], vec![]);
    let q2 = field("a", vec![("where", obj(vec![("age_gt", 21)]))], vec![]);
    let q3 = field("a", vec![], vec![]);
    assert_eq!(first(&m, 0, &q1, &[]).unwrap().0, 0);
    assert_eq!(first(&m, 0, &q2, &[]).unwrap().0, 1);
    assert_eq!(first(&m, 0, &q3, &[]).unwrap().0, 2);
}

#[test]
fn matching_list_statements() {
    let model = "
        query { a(val_in: [1, 2]) } => 1;
        query { a(val_in: $in) } => 2;
        default => 3;
    ";
    let m = CostModel::compile(model, "").unwrap();
    let list = |items: Vec<i64>| Value::List(items.into_iter().map(Value::Int).collect());
    let q1 = field("a", vec![("val_in", list(vec![1, 2]))], vec![]);
    let q2 = field("a", vec![("val_in", list(vec![2, 3]))], vec![]);
    let q3 = field("a", vec![], vec![]);
    assert_eq!(first(&m, 0, &q1, &[]).unwrap().0, 0);
    assert_eq!(first(&m, 0, &q2, &[]).unwrap().0, 1);
    assert_eq!(first(&m, 0, &q3, &[]).unwrap().0, 2);
}

#[test]
fn fragment_statements() {
    let model = "
        query { pairs(skip: $skip) { id reserveUSD } } => 1;
        query { pairs(skip: $skip) { id } } => 2;
        default => 3;
    ";
    let m = CostModel::compile(model, "").unwrap();
    let q = field(
        "pairs",
        vec![("skip", Value::Int(1))],
        vec![Selection::FragmentSpread(FragmentSpread { fragment_name: "fields".to_string(), has_directives: false })],
    );
    let frag = |names: Vec<&str>| {
        vec![FragmentDefinition {
            name: "fields".to_string(),
            has_directives: false,
            selection_set: names.into_iter().map(|n| field(n, vec![], vec![])).collect(),
        }]
    };
    assert_eq!(first(&m, 0, &q, &frag(vec!["id", "reserveUSD"])).unwrap().0, 0);
    assert_eq!(first(&m, 0, &q, &frag(vec!["id"])).unwrap().0, 1);
    assert_eq!(first(&m, 0, &q, &frag(vec!["reserveUSD"])).unwrap().0, 2);
}

#[test]
fn nested_statements() {
    let model = "
        query { users { id tokens { id } } } => 1;
        query { users { id } } => 2;
        default => 3;
    ";
    let m = CostModel::compile(model, "").unwrap();
    let leaf = |n: &str| field(n, vec![], vec![]);
    let q1 = field("users", vec![], vec![leaf("id"), field("tokens", vec![], vec![leaf("id"), leaf("and")])]);
    let q2 = field("users", vec![], vec![leaf("id"), field("tokens", vec![], vec![leaf("and")])]);
    let q3 = field("we", vec![], vec![field("are", vec![], vec![leaf("ni")])]);
    assert_eq!(first(&m, 0, &q1, &[]).unwrap().0, 0);
    assert_eq!(first(&m, 0, &q2, &[]).unwrap().0, 1);
    assert_eq!(first(&m, 0, &q3, &[]).unwrap().0, 2);
}

#[test]
fn capture_from_query_variable() {
    let m = CostModel::compile("query { pairs(skip: $k) } => $k;", "").unwrap();
    let q = field("pairs", vec![("skip", Value::Variable("skip".to_string()))], vec![field("id", vec![], vec![])]);
    let vars = QueryVariables { entries: vec![("skip".to_string(), Value::Int(1))] };
    let (k, caps) = m.first_match(0, &q, &[], &vars).unwrap();
    assert_eq!(k, 0);
    assert_eq!(caps.get(&"k".to_string()), Some(Captured::Int(1)));
    assert!(m.first_match(0, &q, &[], &QueryVariables::new()).is_none());
}

#[test]
fn syntax_is_judged_before_captures() {
    let model = "query { a(x: $v, y: $v) } => 1; garbage";
    assert_eq!(CostModel::compile(model, "").unwrap_err(), CompileError::Syntax);
    let bad_globals = "query { a(x: $v, y: $v) } => 1;";
    assert_eq!(CostModel::compile(bad_globals, "[").unwrap_err(), CompileError::CaptureReused);
    assert_eq!(CostModel::compile("default => 1;", "{ \"a\": }").unwrap_err(), CompileError::Globals);
}
