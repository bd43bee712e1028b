use cost_model::ast::{Field, FragmentDefinition, FragmentSpread, Selection, Value};
use cost_model::captures::QueryVariables;
use cost_model::model::{parse_object, CostError, CostModel};
use graphql_parser::query as q;
use num_bigint::BigUint;

fn value_from<'a>(v: &q::Value<'a, &'a str>) -> Value {
    match v {
        q::Value::Variable(n) => Value::Variable(n.to_string()),
        // graphql-parser holds every integer as an i64, so `as_i64` always gives it.
        q::Value::Int(n) => match n.as_i64() {
            Some(i) => Value::Int(i),
            None => Value::Null,
        },
        q::Value::Float(f) => Value::Float(f.to_bits()),
        q::Value::String(s) => Value::Str(s.clone()),
        q::Value::Boolean(b) => Value::Boolean(*b),
        q::Value::Null => Value::Null,
        q::Value::Enum(e) => Value::Enum(e.to_string()),
        q::Value::List(items) => Value::List(items.iter().map(value_from).collect()),
        q::Value::Object(entries) => {
            Value::Object(entries.iter().map(|(k, v)| (k.to_string(), value_from(v))).collect())
        }
    }
}

fn selection_from<'a>(s: &q::Selection<'a, &'a str>) -> Selection {
    match s {
        q::Selection::Field(f) => Selection::Field(Field {
            name: f.name.to_string(),
            arguments: f.arguments.iter().map(|(k, v)| (k.to_string(), value_from(v))).collect(),
            selection_set: f.selection_set.items.iter().map(selection_from).collect(),
        }),
        q::Selection::FragmentSpread(s) => Selection::FragmentSpread(FragmentSpread {
            fragment_name: s.fragment_name.to_string(),
            has_directives: !s.directives.is_empty(),
        }),
        q::Selection::InlineFragment(_) => Selection::InlineFragment,
    }
}

/// The top-level selections of every operation of `query`, in order, and its
/// fragment definitions.
fn query_parts(query: &str) -> Result<(Vec<Selection>, Vec<FragmentDefinition>), CostError> {
    let doc = graphql_parser::parse_query::<&str>(query).map_err(|_| CostError::FailedToParseQuery)?;
    let mut selections = Vec::new();
    let mut fragments = Vec::new();
    for def in &doc.definitions {
        match def {
            q::Definition::Operation(op) => {
                let set = match op {
                    q::OperationDefinition::SelectionSet(s) => s,
                    q::OperationDefinition::Query(x) => &x.selection_set,
                    q::OperationDefinition::Mutation(x) => &x.selection_set,
                    q::OperationDefinition::Subscription(x) => &x.selection_set,
                };
                selections.extend(set.items.iter().map(selection_from));
            }
            q::Definition::Fragment(f) => fragments.push(FragmentDefinition {
                name: f.name.to_string(),
                has_directives: !f.directives.is_empty(),
                selection_set: f.selection_set.items.iter().map(selection_from).collect(),
            }),
        }
    }
    Ok((selections, fragments))
}

/// The cost of `query` under `model`, with the JSON object `variables`.
pub fn cost(model: &CostModel, query: &str, variables: &str) -> Result<BigUint, CostError> {
    let (selections, fragments) = query_parts(query)?;
    let entries = parse_object(variables).map_err(|_| CostError::FailedToParseVariables)?;
    let variables = QueryVariables { entries };
    let c = model.cost_of(&selections, &fragments, &variables)?;
    Ok(BigUint::from_slice(&c.digits))
}

fn max_cost() -> BigUint {
    (BigUint::from(1u32) << 256usize) - BigUint::from(1u32)
}

fn check(model: &str, globals: &str, query: &str, variables: &str, expected: Result<BigUint, CostError>) {
    let model = CostModel::compile(model, globals).unwrap();
    assert_eq!(cost(&model, query, variables), expected);
}

fn test(model: &str, query: &str, expected: u64) {
    check(model, "", query, "", Ok(BigUint::from(expected)));
}

fn test_err(model: &str, query: &str, expected: CostError) {
    check(model, "", query, "", Err(expected));
}

#[test]
fn query_match() {
    let model = "
        query { a } when true => 11;
        query { b } when false => 12;
        query { b } when 1 == 1 => 2 + 2;
        # Never used, because the above matches the same conditions. 
        query { b } when true => 7;
    ";
    test(model, "query { a }", 11);
    test(model, "query { b }", 4);
}

#[test]
fn field_args() {
    let model = "
        query { a(skip: 10) } => 15;
        query { a(skip: $skip) } when $skip > 10 => $skip * (2 + 0);
        query { a } => 55;
        # This is a comment
        query { b(skip: $skip, bob: $bob) } when $skip == $bob && true => $bob; # This is also a comment
        query { b } => 99;
    ";
    test(model, "query { a(skip: 10) }", 15);
    test(model, "query { a(skip: 11) }", 22);
    test(model, "query { a(skip: 9) }", 55);
    test(model, "query { a }", 55);
    test(model, "query { b }", 99);
    test(model, "query { b(skip: 9) }", 99);
    test(model, "query { b(skip: 9, bob: 10) }", 99);
    test(model, "query { b(skip: 10, bob: 10) }", 10);
    test(model, "query { b(skip: 10, bob: 10), a }", 65);
}

#[test]
fn sums_top_levels() {
    let model = "
        query { a(skip: $skip) } => $skip;
        query { b(bob: $bob) } => 10;
        query { c } => 9;
        query { a } => 99;
        query { d } => 1;
    ";
    test_err(model, "query { a(skip: 10), b }", CostError::QueryNotCosted);
    test(model, "query { a(skip: 10), b(bob: 5) }", 20);
}

#[test]
fn var_substitutions() {
    let query = "query pairs($skip: Int!) { pairs(skip: $skip) { id } }";
    let variables = "{\"skip\":1}";
    let model = "query { pairs(skip: $k) } => $k;";
    check(model, "", query, variables, Ok(BigUint::from(1u32)));
}

#[test]
fn default() {
    let query = "query { nonsense }";
    let model = "query { abc } => 2; default => 10;";
    test(model, query, 10);
}

#[test]
fn matching_object() {
    let model = "
        query { a(where: { age_gt: 18 }) } => 1;
        query { a(where: $where) } => 2;
        default => 3;
    ";
    test(model, "query { a(where: { age_gt: 18, non: 1 }) }", 1);
    test(model, "query { a(where: { age_gt: 21 }) }", 2);
    test(model, "query { a }", 3);
}

#[test]
fn matching_list() {
    let model = "
        query { a(val_in: [1, 2]) } => 1;
        query { a(val_in: $in) } => 2;
        default => 3;
    ";
    test(model, "query { a(val_in: [1, 2]) }", 1);
    test(model, "query { a(val_in: [2, 3]) }", 2);
    test(model, "query { a }", 3);
}

#[test]
fn fragments() {
    let model = "
        query { pairs(skip: $skip) { id reserveUSD } } => 1;
        query { pairs(skip: $skip) { id } } => 2;
        default => 3;
    ";
    let query_1 = "
        {
            pairs(skip: 1) { ...fields }
        }
        fragment fields on Name {
            id, reserveUSD
        }
    ";
    let query_2 = "
        {
            pairs(skip: 1) { ...fields }
        }
        fragment fields on Name {
            id
        }
    ";
    let query_3 = "
        {
            pairs(skip: 1) { ...fields }
        }
        fragment fields on Name {
            reserveUSD
        }
    ";
    test(model, query_1, 1);
    test(model, query_2, 2);
    test(model, query_3, 3);
}

#[test]
fn fragment_inlined_costs_the_same() {
    let model = "
        query { pairs(skip: $skip) { id reserveUSD } } => 1;
        query { pairs(skip: $skip) { id } } => 2;
        default => 3;
    ";
    let spread = "{ pairs(skip: 1) { ...fields } } fragment fields on Name { id, reserveUSD }";
    let inlined = "{ pairs(skip: 1) { id, reserveUSD } }";
    let model = CostModel::compile(model, "").unwrap();
    assert_eq!(cost(&model, spread, ""), cost(&model, inlined, ""));
}

#[test]
fn invalid_query() {
    test_err("default => 1;", "blah", CostError::FailedToParseQuery);
}

#[test]
fn invalid_variables() {
    check("default => 1;", "", "query { a }", "blah", Err(CostError::FailedToParseVariables));
}

#[test]
fn nested_query() {
    let model = "
        query { users { id tokens { id } } } => 1;
        query { users { id } } => 2;
        default => 3;
    ";
    test(model, "query { users { id tokens { id } } }", 1);
    test(model, "query { users { id tokens { id and } } }", 1);
    test(model, "query { users { id tokens { and } } }", 2);
    test(model, "query { we { are { the { knights { who { say { ni } } } } } } }", 3);
}

#[test]
fn query_not_costed() {
    test_err("query { a } => 2;", "{ b }", CostError::QueryNotCosted);
}

#[test]
fn div_by_zero_does_not_panic() {
    test_err("default => 1 / 0;", "{ a }", CostError::CostModelFail);
}

#[test]
fn lossless_math() {
    // If the cost model were implemented by truncating at each operation,
    // the result would be 0.
    test("default => 100 * (1 / 2);", "{ a }", 50);

    // Taking MAX_COST, multiplying by 5 then 2, then dividing by 100, is the
    // same as dividing by 10 (just removing the last digit).
    let expect: BigUint = "11579208923731619542357098500868790785326998466564056403945758400791312963993"
        .parse()
        .unwrap();
    check(
        "default => ((115792089237316195423570985008687907853269984665640564039457584007913129639935 * 5) * 2) / 100;",
        "",
        "{ a }",
        "",
        Ok(expect),
    );

    // Underflows (below 0) temporarily
    test("default => ((-1 / 2) * 5) + 5;", "{ a }", 2);
}

#[test]
fn overflow_clamp() {
    // Underflow
    test("default => 100 - 200;", "{ a }", 0);
    check(
        "default => 115792089237316195423570985008687907853269984665640564039457584007913129639931 + 10;",
        "",
        "{ a }",
        "",
        Ok(max_cost()),
    );
}

#[test]
fn infinity_cancel_is_err() {
    test_err("default => (1 / 0) + (-1 / 0);", "{ a }", CostError::CostModelFail);
}

#[test]
fn arg_only() {
    test("query { tokens(first: $first) } => 1;", "{ tokens(first: 100) { id } }", 1)
}

#[test]
fn globals_in_cost() {
    check("default => $GLOBAL;", "{ \"GLOBAL\": 15 }", "{ a }", "", Ok(BigUint::from(15u32)));
}

#[test]
fn globals_in_where() {
    let model = "query { a } when $COND => 1; default => 2;";
    check(model, "{ \"COND\": true }", "{ a }", "", Ok(BigUint::from(1u32)));
    check(model, "{ \"COND\": false }", "{ a }", "", Ok(BigUint::from(2u32)));
    check(model, "{ \"COND\": 0 }", "{ a }", "", Ok(BigUint::from(2u32)));
}

/// When there is a capture, that will be preferred over a global
#[test]
fn capture_shadows_global() {
    let model = "query { a(first: $GLOBAL) } => $GLOBAL;";
    check(model, "{ \"GLOBAL\": 15 }", "{ a(first: 30) }", "", Ok(BigUint::from(30u32)));
}

#[test]
fn ban() {
    test_err("default => $BAN;", "{ a }", CostError::CostModelFail);
    check("default => $BAN;", "{ \"BAN\": true }", "{ a }", "", Err(CostError::CostModelFail));
    check("default => 1;", "{ \"BAN\": true }", "{ a }", "", Ok(BigUint::from(1u32)));
    check("default => $BAN;", "{ \"BAN\": 0 }", "{ a }", "", Ok(BigUint::from(0u32)));
}

#[test]
fn global_when_to_bool() {
    let model = "query { a } when $A => 1; default => 2;";
    check(model, "{ \"A\": \"A\" }", "{ a }", "", Ok(BigUint::from(1u32)));
    check(model, "{ \"A\": true }", "{ a }", "", Ok(BigUint::from(1u32)));
    check(model, "{ \"A\": 1 }", "{ a }", "", Ok(BigUint::from(1u32)));
    check(model, "{ \"A\": \"\" }", "{ a }", "", Ok(BigUint::from(2u32)));
    check(model, "{ \"A\": false }", "{ a }", "", Ok(BigUint::from(2u32)));
    check(model, "{ \"A\": 0 }", "{ a }", "", Ok(BigUint::from(2u32)));
}

#[test]
fn missing_reference_fails() {
    test_err("default => $MISSING;", "{ a }", CostError::CostModelFail);
    test_err("default => true;", "{ a }", CostError::CostModelFail);
    test_err("query { a } when 1 / 0 > $MISSING => 1;", "{ a }", CostError::CostModelFail);
}

#[test]
fn arithmetic_edges() {
    test("default => 7 / 2;", "{ a }", 3);
    test("default => 1 / (1 / 0);", "{ a }", 0);
    test("default => -(0 - 9);", "{ a }", 9);
    test("query { a } when !(1 < 2) => 1; query { a } when 2 >= 2 && 3 != 4 => 2;", "{ a }", 2);
    test("query { a } when false || 1 <= 0 => 1; default => 3;", "{ a }", 3);
    test_err("default => (0 / 0);", "{ a }", CostError::CostModelFail);
}
