use vstd::prelude::*;
use crate::ast::{Captured, Directive, Field, FragmentDefinition, Selection, Value};
use crate::captures::{bind_spec, variable_of, CaptureSeq, Captures, QueryVariables};

verus! {

/// The outcome of a match (`Err` for an unsupported construct) and the
/// bindings after it.
pub type Outcome = (Result<bool, ()>, CaptureSeq);

/// Matching predicate value `p` against query value `q`. A query variable is
/// first replaced by its value in `vars`; an unknown variable, or one whose
/// value is itself a variable, is an error.
pub open spec fn spec_match_value(p: Value, q: Value, vars: Seq<(String, Value)>, caps: CaptureSeq) -> Outcome
    decreases p, 1int, 0int,
{
    match q {
        Value::Variable(name) => match variable_of(vars, name@) {
            Some(r) => if r is Variable {
                (Err(()), caps)
            } else {
                spec_match_concrete(p, r, vars, caps)
            },
            None => (Err(()), caps),
        },
        _ => spec_match_concrete(p, q, vars, caps),
    }
}

/// Matching `p` against a query value that is not a variable.
pub open spec fn spec_match_concrete(p: Value, q: Value, vars: Seq<(String, Value)>, caps: CaptureSeq) -> Outcome
    decreases p, 0int, 0int,
{
    match p {
        Value::Variable(name) => match q {
            Value::Int(i) => {
                let (ok, c) = bind_spec(caps, name@, Captured::Int(i));
                (Ok(ok), c)
            },
            Value::Boolean(b) => {
                let (ok, c) = bind_spec(caps, name@, Captured::Bool(b));
                (Ok(ok), c)
            },
            _ => (Ok(true), caps),
        },
        Value::Int(a) => (Ok(q is Int && q->Int_0 == a), caps),
        Value::Float(a) => (Ok(q is Float && q->Float_0 == a), caps),
        Value::Str(a) => (Ok(q is Str && q->Str_0@ == a@), caps),
        Value::Boolean(a) => (Ok(q is Boolean && q->Boolean_0 == a), caps),
        Value::Null => (Ok(q is Null), caps),
        Value::Enum(a) => (Ok(q is Enum && q->Enum_0@ == a@), caps),
        Value::List(ps) => match q {
            Value::List(qs) => if ps@.len() != qs@.len() {
                (Ok(false), caps)
            } else {
                spec_match_list_from(ps@, qs@, 0, vars, caps)
            },
            _ => (Ok(false), caps),
        },
        Value::Object(ps) => match q {
            Value::Object(qs) => spec_match_object_from(ps@, qs@, 0, vars, caps),
            _ => (Ok(false), caps),
        },
    }
}

/// Matching `ps[i..]` against `qs[i..]` pairwise, in order, stopping at the
/// first pair that does not match.
pub open spec fn spec_match_list_from(
    ps: Seq<Value>,
    qs: Seq<Value>,
    i: int,
    vars: Seq<(String, Value)>,
    caps: CaptureSeq,
) -> Outcome
    decreases ps, 0int, ps.len() - i,
{
    if i < 0 || i >= ps.len() || i >= qs.len() {
        (Ok(true), caps)
    } else {
        let (r, c) = spec_match_value(ps[i], qs[i], vars, caps);
        match r {
            Ok(true) => spec_match_list_from(ps, qs, i + 1, vars, c),
            _ => (r, c),
        }
    }
}

/// Matching predicate argument `(pn, pv)` against query argument `(qn, qv)`:
/// names must be equal and values must match.
pub open spec fn spec_match_named_value(
    pn: Seq<char>,
    pv: Value,
    qn: Seq<char>,
    qv: Value,
    vars: Seq<(String, Value)>,
    caps: CaptureSeq,
) -> Outcome
    decreases pv, 2int, 0int,
{
    if pn != qn {
        (Ok(false), caps)
    } else {
        spec_match_value(pv, qv, vars, caps)
    }
}

/// Looking for a query entry among `qs[j..]` that predicate entry `p` matches:
/// the first one that matches, or the first error, ends the search.
pub open spec fn spec_any_entry_from(
    p: (String, Value),
    qs: Seq<(String, Value)>,
    j: int,
    vars: Seq<(String, Value)>,
    caps: CaptureSeq,
) -> Outcome
    decreases p, 0int, qs.len() - j,
{
    if j < 0 || j >= qs.len() {
        (Ok(false), caps)
    } else {
        let (r, c) = spec_match_named_value(p.0@, p.1, qs[j].0@, qs[j].1, vars, caps);
        match r {
            Ok(false) => spec_any_entry_from(p, qs, j + 1, vars, c),
            _ => (r, c),
        }
    }
}

/// Every entry of `ps[i..]` must find a matching entry in `qs`: the query may
/// hold more entries than the predicate.
pub open spec fn spec_match_object_from(
    ps: Seq<(String, Value)>,
    qs: Seq<(String, Value)>,
    i: int,
    vars: Seq<(String, Value)>,
    caps: CaptureSeq,
) -> Outcome
    decreases ps, 0int, ps.len() - i,
{
    if i < 0 || i >= ps.len() {
        (Ok(true), caps)
    } else {
        let (r, c) = spec_any_entry_from(ps[i], qs, 0, vars, caps);
        match r {
            Ok(true) => spec_match_object_from(ps, qs, i + 1, vars, c),
            _ => (r, c),
        }
    }
}


/// What `any_ok` returns for `outcomes[i..]`.
pub open spec fn spec_any_ok_from<E>(outcomes: Seq<Result<bool, E>>, i: int) -> Result<bool, E>
    decreases outcomes.len() - i,
{
    if i < 0 || i >= outcomes.len() {
        Ok(false)
    } else {
        match outcomes[i] {
            Ok(false) => spec_any_ok_from(outcomes, i + 1),
            r => r,
        }
    }
}

/// Combines the outcomes of an existential search, in order: the first
/// `Ok(true)` or the first error decides; with neither, the result is
/// `Ok(false)`. It takes outcomes already computed; the matcher's own
/// searches stop at the first decision without trying the rest, since
/// each try may bind captures, so they do not go through it.
pub fn any_ok<E: Copy>(outcomes: &Vec<Result<bool, E>>) -> (r: Result<bool, E>)
    ensures
        r == spec_any_ok_from(outcomes@, 0),
{
    let mut i: usize = 0;
    while i < outcomes.len()
        invariant
            0 <= i <= outcomes@.len(),
            spec_any_ok_from(outcomes@, i as int) == spec_any_ok_from(outcomes@, 0),
        decreases outcomes@.len() - i,
    {
        match outcomes[i] {
            Ok(false) => {},
            r => {
                return r;
            },
        }
        i = i + 1;
    }
    Ok(false)
}

/// Matches predicate value `p` against query value `q`, binding capture slots
/// of `p` in `captures`.
pub fn match_value(p: &Value, q: &Value, variables: &QueryVariables, captures: &mut Captures) -> (r:
    Result<bool, ()>)
    ensures
        (r, final(captures)@) == spec_match_value(*p, *q, variables.entries@, old(captures)@),
    decreases p, 1int, 0int,
{
    match q {
        Value::Variable(name) => match variables.get(name) {
            Some(resolved) => match resolved {
                Value::Variable(_) => Err(()),
                _ => match_concrete(p, resolved, variables, captures),
            },
            None => Err(()),
        },
        _ => match_concrete(p, q, variables, captures),
    }
}

fn match_concrete(p: &Value, q: &Value, variables: &QueryVariables, captures: &mut Captures) -> (r:
    Result<bool, ()>)
    ensures
        (r, final(captures)@) == spec_match_concrete(*p, *q, variables.entries@, old(captures)@),
    decreases p, 0int, 0int,
{
    match p {
        Value::Variable(name) => match q {
            Value::Int(i) => Ok(captures.bind(name, Captured::Int(*i))),
            Value::Boolean(b) => Ok(captures.bind(name, Captured::Bool(*b))),
            _ => Ok(true),
        },
        Value::Int(a) => Ok(match q {
            Value::Int(b) => *a == *b,
            _ => false,
        }),
        Value::Float(a) => Ok(match q {
            Value::Float(b) => *a == *b,
            _ => false,
        }),
        Value::Str(a) => Ok(match q {
            Value::Str(b) => *a == *b,
            _ => false,
        }),
        Value::Boolean(a) => Ok(match q {
            Value::Boolean(b) => *a == *b,
            _ => false,
        }),
        Value::Null => Ok(match q {
            Value::Null => true,
            _ => false,
        }),
        Value::Enum(a) => Ok(match q {
            Value::Enum(b) => *a == *b,
            _ => false,
        }),
        Value::List(ps) => match q {
            Value::List(qs) => match_list(ps, qs, variables, captures),
            _ => Ok(false),
        },
        Value::Object(ps) => match q {
            Value::Object(qs) => match_object(ps, qs, variables, captures),
            _ => Ok(false),
        },
    }
}

/// Lists match when their lengths are equal and their items match pairwise,
/// in order.
fn match_list(p: &Vec<Value>, q: &Vec<Value>, variables: &QueryVariables, captures: &mut Captures) -> (r:
    Result<bool, ()>)
    ensures
        (r, final(captures)@) == (if p@.len() != q@.len() {
            (Ok(false), old(captures)@)
        } else {
            spec_match_list_from(p@, q@, 0, variables.entries@, old(captures)@)
        }),
    decreases p, 0int, 0int,
{
    if p.len() != q.len() {
        return Ok(false);
    }
    let ghost start = captures@;
    let mut i: usize = 0;
    while i < p.len()
        invariant
            0 <= i <= p@.len(),
            p@.len() == q@.len(),
            start == old(captures)@,
            spec_match_list_from(p@, q@, i as int, variables.entries@, captures@)
                == spec_match_list_from(p@, q@, 0, variables.entries@, start),
        decreases p@.len() - i,
    {
        let ghost before = captures@;
        let r = match_value(&p[i], &q[i], variables, captures);
        assert(spec_match_list_from(p@, q@, i as int, variables.entries@, before) == (if r == Ok::<bool, ()>(true) {
            spec_match_list_from(p@, q@, i + 1, variables.entries@, captures@)
        } else {
            (r, captures@)
        }));
        match r {
            Ok(true) => {},
            _ => {
                return r;
            },
        }
        i = i + 1;
    }
    Ok(true)
}

/// Matches predicate argument `p` against query argument `q`: equal names and
/// matching values.
pub fn match_named_value(
    p: &(String, Value),
    q: &(String, Value),
    variables: &QueryVariables,
    captures: &mut Captures,
) -> (r: Result<bool, ()>)
    ensures
        (r, final(captures)@) == spec_match_named_value(
            p.0@,
            p.1,
            q.0@,
            q.1,
            variables.entries@,
            old(captures)@,
        ),
    decreases p.1, 2int, 0int,
{
    if p.0 != q.0 {
        return Ok(false);
    }
    match_value(&p.1, &q.1, variables, captures)
}

/// Searches `q` in order for an entry that `p` matches.
fn any_entry(p: &(String, Value), q: &Vec<(String, Value)>, variables: &QueryVariables, captures: &mut Captures) -> (r:
    Result<bool, ()>)
    ensures
        (r, final(captures)@) == spec_any_entry_from(*p, q@, 0, variables.entries@, old(captures)@),
    decreases *p, 1int, 0int,
{
    let ghost start = captures@;
    let mut j: usize = 0;
    while j < q.len()
        invariant
            0 <= j <= q@.len(),
            start == old(captures)@,
            spec_any_entry_from(*p, q@, j as int, variables.entries@, captures@)
                == spec_any_entry_from(*p, q@, 0, variables.entries@, start),
        decreases q@.len() - j,
    {
        let ghost before = captures@;
        let r = match_named_value(p, &q[j], variables, captures);
        assert(spec_any_entry_from(*p, q@, j as int, variables.entries@, before) == (if r == Ok::<bool, ()>(false) {
            spec_any_entry_from(*p, q@, j + 1, variables.entries@, captures@)
        } else {
            (r, captures@)
        }));
        match r {
            Ok(false) => {},
            _ => {
                return r;
            },
        }
        j = j + 1;
    }
    Ok(false)
}

/// Every entry of `p` must be matched by some entry of `q`; `q` may hold more.
fn match_object(
    p: &Vec<(String, Value)>,
    q: &Vec<(String, Value)>,
    variables: &QueryVariables,
    captures: &mut Captures,
) -> (r: Result<bool, ()>)
    ensures
        (r, final(captures)@) == spec_match_object_from(p@, q@, 0, variables.entries@, old(captures)@),
    decreases p, 0int, 0int,
{
    let ghost start = captures@;
    let mut i: usize = 0;
    while i < p.len()
        invariant
            0 <= i <= p@.len(),
            start == old(captures)@,
            spec_match_object_from(p@, q@, i as int, variables.entries@, captures@)
                == spec_match_object_from(p@, q@, 0, variables.entries@, start),
        decreases p@.len() - i,
    {
        let ghost before = captures@;
        let r = any_entry(&p[i], q, variables, captures);
        assert(spec_match_object_from(p@, q@, i as int, variables.entries@, before) == (if r == Ok::<bool, ()>(true) {
            spec_match_object_from(p@, q@, i + 1, variables.entries@, captures@)
        } else {
            (r, captures@)
        }));
        match r {
            Ok(true) => {},
            _ => {
                return r;
            },
        }
        i = i + 1;
    }
    Ok(true)
}

/// The first fragment definition among `frags[i..]` named `name`.
pub open spec fn fragment_from(frags: Seq<FragmentDefinition>, name: Seq<char>, i: int) -> Option<FragmentDefinition>
    decreases frags.len() - i,
{
    if i < 0 || i >= frags.len() {
        None
    } else if frags[i].name@ == name {
        Some(frags[i])
    } else {
        fragment_from(frags, name, i + 1)
    }
}

/// Matching predicate selection `p` against query selection `q`.
///
/// A field matches a field by `spec_match_fields`. A fragment spread in the
/// query is replaced by its definition, and `p` is tried against each item of
/// it in turn. `depth` bounds how many spreads may be followed in a row: a
/// chain longer than the number of fragment definitions can only be a cycle,
/// and is refused as an error. Every other combination is an error.
pub open spec fn spec_match_selection(
    p: Selection,
    q: Selection,
    frags: Seq<FragmentDefinition>,
    vars: Seq<(String, Value)>,
    caps: CaptureSeq,
    depth: nat,
) -> Outcome
    decreases p, depth, 1int, 0int,
{
    match q {
        Selection::FragmentSpread(spread) => if spread.has_directives {
            (Err(()), caps)
        } else {
            match fragment_from(frags, spread.fragment_name@, 0) {
                Some(def) => if def.has_directives || depth == 0 {
                    (Err(()), caps)
                } else {
                    spec_any_selection_from(p, def.selection_set@, 0, frags, vars, caps, (depth - 1) as nat)
                },
                None => (Err(()), caps),
            }
        },
        Selection::Field(qf) => match p {
            Selection::Field(pf) => spec_match_fields(pf, qf, frags, vars, caps),
            _ => (Err(()), caps),
        },
        Selection::InlineFragment => (Err(()), caps),
    }
}

/// Looking for a selection among `qs[j..]` that `p` matches: the first match,
/// or the first error, ends the search.
pub open spec fn spec_any_selection_from(
    p: Selection,
    qs: Seq<Selection>,
    j: int,
    frags: Seq<FragmentDefinition>,
    vars: Seq<(String, Value)>,
    caps: CaptureSeq,
    depth: nat,
) -> Outcome
    decreases p, depth, 2int, qs.len() - j,
{
    if j < 0 || j >= qs.len() {
        (Ok(false), caps)
    } else {
        let (r, c) = spec_match_selection(p, qs[j], frags, vars, caps, depth);
        match r {
            Ok(false) => spec_any_selection_from(p, qs, j + 1, frags, vars, c, depth),
            _ => (r, c),
        }
    }
}

/// Matching field `p` against field `q`: equal names, every argument of `p`
/// matched by some argument of `q`, then every selection of `p` matched by
/// some selection of `q`.
pub open spec fn spec_match_fields(
    p: Field,
    q: Field,
    frags: Seq<FragmentDefinition>,
    vars: Seq<(String, Value)>,
    caps: CaptureSeq,
) -> Outcome
    decreases p, 0nat, 1int, 0int,
{
    if p.name@ != q.name@ {
        (Ok(false), caps)
    } else {
        let (r, c) = spec_match_object_from(p.arguments@, q.arguments@, 0, vars, caps);
        match r {
            Ok(true) => spec_match_subselections_from(p, q, 0, frags, vars, c),
            _ => (r, c),
        }
    }
}

/// Every selection of `p.selection_set[i..]` must be matched by some selection
/// of `q.selection_set`.
pub open spec fn spec_match_subselections_from(
    p: Field,
    q: Field,
    i: int,
    frags: Seq<FragmentDefinition>,
    vars: Seq<(String, Value)>,
    caps: CaptureSeq,
) -> Outcome
    decreases p, 0nat, 0int, p.selection_set@.len() - i,
{
    if i < 0 || i >= p.selection_set@.len() {
        (Ok(true), caps)
    } else {
        let (r, c) = spec_any_selection_from(
            p.selection_set@[i],
            q.selection_set@,
            0,
            frags,
            vars,
            caps,
            frags.len(),
        );
        match r {
            Ok(true) => spec_match_subselections_from(p, q, i + 1, frags, vars, c),
            _ => (r, c),
        }
    }
}

/// Directives are never matched: comparing two is an unsupported construct.
pub fn match_directives(
    _predicate: &Directive,
    _query: &Directive,
    _fragments: &[FragmentDefinition],
    _variables: &QueryVariables,
    _captures: &mut Captures,
) -> (r: Result<bool, ()>)
    ensures
        r is Err,
        final(_captures)@ == old(_captures)@,
{
    Err(())
}

/// Matches predicate selection `predicate` against query selection `query`,
/// resolving fragment spreads of the query through `fragments` and binding
/// capture slots of the predicate in `captures`.
pub fn match_selections(
    predicate: &Selection,
    query: &Selection,
    fragments: &[FragmentDefinition],
    variables: &QueryVariables,
    captures: &mut Captures,
) -> (r: Result<bool, ()>)
    ensures
        (r, final(captures)@) == spec_match_selection(
            *predicate,
            *query,
            fragments@,
            variables.entries@,
            old(captures)@,
            fragments@.len(),
        ),
{
    match_selection_within(predicate, query, fragments, variables, captures, fragments.len())
}

fn find_fragment<'a>(fragments: &'a [FragmentDefinition], name: &String) -> (r: Option<&'a FragmentDefinition>)
    ensures
        match r {
            Some(def) => fragment_from(fragments@, name@, 0) == Some(*def),
            None => fragment_from(fragments@, name@, 0) is None,
        },
{
    let mut i: usize = 0;
    while i < fragments.len()
        invariant
            0 <= i <= fragments@.len(),
            fragment_from(fragments@, name@, i as int) == fragment_from(fragments@, name@, 0),
        decreases fragments@.len() - i,
    {
        if fragments[i].name == *name {
            return Some(&fragments[i]);
        }
        i = i + 1;
    }
    None
}

fn match_selection_within(
    p: &Selection,
    q: &Selection,
    fragments: &[FragmentDefinition],
    variables: &QueryVariables,
    captures: &mut Captures,
    depth: usize,
) -> (r: Result<bool, ()>)
    ensures
        (r, final(captures)@) == spec_match_selection(
            *p,
            *q,
            fragments@,
            variables.entries@,
            old(captures)@,
            depth as nat,
        ),
    decreases p, depth, 1int, 0int,
{
    match q {
        Selection::FragmentSpread(spread) => {
            if spread.has_directives {
                return Err(());
            }
            match find_fragment(fragments, &spread.fragment_name) {
                Some(def) => {
                    if def.has_directives || depth == 0 {
                        return Err(());
                    }
                    any_selection(p, &def.selection_set, fragments, variables, captures, depth - 1)
                },
                None => Err(()),
            }
        },
        Selection::Field(qf) => match p {
            Selection::Field(pf) => match_fields(pf, qf, fragments, variables, captures),
            _ => Err(()),
        },
        Selection::InlineFragment => Err(()),
    }
}

fn any_selection(
    p: &Selection,
    qs: &Vec<Selection>,
    fragments: &[FragmentDefinition],
    variables: &QueryVariables,
    captures: &mut Captures,
    depth: usize,
) -> (r: Result<bool, ()>)
    ensures
        (r, final(captures)@) == spec_any_selection_from(
            *p,
            qs@,
            0,
            fragments@,
            variables.entries@,
            old(captures)@,
            depth as nat,
        ),
    decreases p, depth, 2int, 0int,
{
    let ghost start = captures@;
    let mut j: usize = 0;
    while j < qs.len()
        invariant
            0 <= j <= qs@.len(),
            start == old(captures)@,
            spec_any_selection_from(*p, qs@, j as int, fragments@, variables.entries@, captures@, depth as nat)
                == spec_any_selection_from(*p, qs@, 0, fragments@, variables.entries@, start, depth as nat),
        decreases qs@.len() - j,
    {
        let ghost before = captures@;
        let r = match_selection_within(p, &qs[j], fragments, variables, captures, depth);
        assert(spec_any_selection_from(*p, qs@, j as int, fragments@, variables.entries@, before, depth as nat)
            == (if r == Ok::<bool, ()>(false) {
            spec_any_selection_from(*p, qs@, j + 1, fragments@, variables.entries@, captures@, depth as nat)
        } else {
            (r, captures@)
        }));
        match r {
            Ok(false) => {},
            _ => {
                return r;
            },
        }
        j = j + 1;
    }
    Ok(false)
}

fn match_fields(
    p: &Field,
    q: &Field,
    fragments: &[FragmentDefinition],
    variables: &QueryVariables,
    captures: &mut Captures,
) -> (r: Result<bool, ()>)
    ensures
        (r, final(captures)@) == spec_match_fields(*p, *q, fragments@, variables.entries@, old(captures)@),
    decreases p, 0usize, 1int, 0int,
{
    if p.name != q.name {
        return Ok(false);
    }
    let r = match_object(&p.arguments, &q.arguments, variables, captures);
    match r {
        Ok(true) => {},
        _ => {
            return r;
        },
    }
    let ghost start = captures@;
    let mut i: usize = 0;
    while i < p.selection_set.len()
        invariant
            0 <= i <= p.selection_set@.len(),
            spec_match_subselections_from(*p, *q, i as int, fragments@, variables.entries@, captures@)
                == spec_match_subselections_from(*p, *q, 0, fragments@, variables.entries@, start),
            spec_match_fields(*p, *q, fragments@, variables.entries@, old(captures)@)
                == spec_match_subselections_from(*p, *q, 0, fragments@, variables.entries@, start),
        decreases p.selection_set@.len() - i,
    {
        let ghost before = captures@;
        let r = any_selection(&p.selection_set[i], &q.selection_set, fragments, variables, captures, fragments.len());
        assert(spec_match_subselections_from(*p, *q, i as int, fragments@, variables.entries@, before)
            == (if r == Ok::<bool, ()>(true) {
            spec_match_subselections_from(*p, *q, i + 1, fragments@, variables.entries@, captures@)
        } else {
            (r, captures@)
        }));
        match r {
            Ok(true) => {},
            _ => {
                return r;
            },
        }
        i = i + 1;
    }
    Ok(true)
}

/// Predicate item `ps[k]` matches query item `qs[k]` from some bindings.
pub open spec fn item_matches(ps: Seq<Value>, qs: Seq<Value>, k: int, vars: Seq<(String, Value)>) -> bool {
    exists|c: CaptureSeq| #[trigger] spec_match_value(ps[k], qs[k], vars, c).0 == Ok::<bool, ()>(true)
}

/// Some entry of `qs` has the key of `p` and a value that `p`'s value matches
/// from some bindings.
pub open spec fn entry_matched(p: (String, Value), qs: Seq<(String, Value)>, vars: Seq<(String, Value)>) -> bool {
    exists|m: int, c: CaptureSeq|
        0 <= m < qs.len() && qs[m].0@ == p.0@ && #[trigger] spec_match_value(p.1, qs[m].1, vars, c).0
            == Ok::<bool, ()>(true)
}

/// Lists of different lengths never match, and nothing is bound.
pub proof fn lemma_list_lengths_differ(
    ps: Vec<Value>,
    qs: Vec<Value>,
    vars: Seq<(String, Value)>,
    caps: CaptureSeq,
)
    requires
        ps@.len() != qs@.len(),
    ensures
        spec_match_value(Value::List(ps), Value::List(qs), vars, caps) == (Ok::<bool, ()>(false), caps),
{
}

/// When two lists match, each item of the predicate list matches the query
/// item at the same position.
pub proof fn lemma_list_match_pairwise(
    ps: Seq<Value>,
    qs: Seq<Value>,
    i: int,
    vars: Seq<(String, Value)>,
    caps: CaptureSeq,
)
    requires
        0 <= i,
        ps.len() == qs.len(),
        spec_match_list_from(ps, qs, i, vars, caps).0 == Ok::<bool, ()>(true),
    ensures
        forall|k: int| i <= k < ps.len() ==> #[trigger] item_matches(ps, qs, k, vars),
    decreases ps.len() - i,
{
    if i < ps.len() {
        let (r, c) = spec_match_value(ps[i], qs[i], vars, caps);
        lemma_list_match_pairwise(ps, qs, i + 1, vars, c);
        assert forall|k: int| i <= k < ps.len() implies #[trigger] item_matches(ps, qs, k, vars) by {
            if k == i {
                assert(spec_match_value(ps[k], qs[k], vars, caps).0 == Ok::<bool, ()>(true));
            }
        }
    }
}

proof fn lemma_any_entry_found(
    p: (String, Value),
    qs: Seq<(String, Value)>,
    j: int,
    vars: Seq<(String, Value)>,
    caps: CaptureSeq,
)
    requires
        0 <= j,
        spec_any_entry_from(p, qs, j, vars, caps).0 == Ok::<bool, ()>(true),
    ensures
        exists|m: int, c: CaptureSeq|
            j <= m < qs.len() && qs[m].0@ == p.0@ && #[trigger] spec_match_value(p.1, qs[m].1, vars, c).0
                == Ok::<bool, ()>(true),
    decreases qs.len() - j,
{
    if j < qs.len() {
        let (r, c) = spec_match_named_value(p.0@, p.1, qs[j].0@, qs[j].1, vars, caps);
        if r == Ok::<bool, ()>(false) {
            lemma_any_entry_found(p, qs, j + 1, vars, c);
        } else {
            assert(qs[j].0@ == p.0@);
            assert(spec_match_value(p.1, qs[j].1, vars, caps).0 == Ok::<bool, ()>(true));
        }
    }
}

/// When an object matches, every entry of the predicate object is matched by
/// an entry of the query object with the same key; the query object may hold
/// more keys.
pub proof fn lemma_object_match_subset(
    ps: Seq<(String, Value)>,
    qs: Seq<(String, Value)>,
    i: int,
    vars: Seq<(String, Value)>,
    caps: CaptureSeq,
)
    requires
        0 <= i,
        spec_match_object_from(ps, qs, i, vars, caps).0 == Ok::<bool, ()>(true),
    ensures
        forall|k: int| i <= k < ps.len() ==> #[trigger] entry_matched(ps[k], qs, vars),
    decreases ps.len() - i,
{
    if i < ps.len() {
        let (r, c) = spec_any_entry_from(ps[i], qs, 0, vars, caps);
        lemma_any_entry_found(ps[i], qs, 0, vars, caps);
        lemma_object_match_subset(ps, qs, i + 1, vars, c);
    }
}

/// An object predicate without entries matches every query object, and binds
/// nothing.
pub proof fn lemma_empty_object_matches(
    ps: Vec<(String, Value)>,
    qs: Vec<(String, Value)>,
    vars: Seq<(String, Value)>,
    caps: CaptureSeq,
)
    requires
        ps@.len() == 0,
    ensures
        spec_match_value(Value::Object(ps), Value::Object(qs), vars, caps) == (Ok::<bool, ()>(true), caps),
{
}

/// A capture slot already bound to one value does not match a different
/// one, and its binding stays as it was.
pub proof fn lemma_capture_conflict_fails(
    name: String,
    i: i64,
    vars: Seq<(String, Value)>,
    caps: CaptureSeq,
)
    requires
        crate::captures::capture_of(caps, name@) is Some,
        crate::captures::capture_of(caps, name@) != Some(Captured::Int(i)),
    ensures
        spec_match_value(Value::Variable(name), Value::Int(i), vars, caps) == (Ok::<bool, ()>(false), caps),
{
}

/// Matching against a selection that is not a fragment spread does not
/// depend on how many spreads may still be followed.
pub proof fn lemma_depth_irrelevant(
    p: Selection,
    q: Selection,
    frags: Seq<FragmentDefinition>,
    vars: Seq<(String, Value)>,
    caps: CaptureSeq,
    d1: nat,
    d2: nat,
)
    requires
        !(q is FragmentSpread),
    ensures
        spec_match_selection(p, q, frags, vars, caps, d1) == spec_match_selection(p, q, frags, vars, caps, d2),
{
}

/// Searching selections none of which is a fragment spread does not depend
/// on how many spreads may still be followed.
pub proof fn lemma_any_depth_irrelevant(
    p: Selection,
    qs: Seq<Selection>,
    j: int,
    frags: Seq<FragmentDefinition>,
    vars: Seq<(String, Value)>,
    caps: CaptureSeq,
    d1: nat,
    d2: nat,
)
    requires
        0 <= j,
        forall|k: int| 0 <= k < qs.len() ==> !(#[trigger] qs[k] is FragmentSpread),
    ensures
        spec_any_selection_from(p, qs, j, frags, vars, caps, d1) == spec_any_selection_from(
            p,
            qs,
            j,
            frags,
            vars,
            caps,
            d2,
        ),
    decreases qs.len() - j,
{
    if j < qs.len() {
        lemma_depth_irrelevant(p, qs[j], frags, vars, caps, d1, d2);
        let (r, c) = spec_match_selection(p, qs[j], frags, vars, caps, d1);
        lemma_any_depth_irrelevant(p, qs, j + 1, frags, vars, c, d1, d2);
    }
}

/// A selection set that holds only a spread of fragment `def` is searched as
/// if the items of `def` stood in its place. When no item of `def` is a
/// spread itself, the search is the very same.
pub proof fn lemma_fragment_transparent(
    p: Selection,
    spread: Selection,
    def: FragmentDefinition,
    frags: Seq<FragmentDefinition>,
    vars: Seq<(String, Value)>,
    caps: CaptureSeq,
    depth: nat,
)
    requires
        depth > 0,
        spread matches Selection::FragmentSpread(s) && !s.has_directives && fragment_from(
            frags,
            s.fragment_name@,
            0,
        ) == Some(def),
        !def.has_directives,
        forall|k: int| 0 <= k < def.selection_set@.len() ==> !(#[trigger] def.selection_set@[k] is FragmentSpread),
    ensures
        spec_any_selection_from(p, seq![spread], 0, frags, vars, caps, depth) == spec_any_selection_from(
            p,
            def.selection_set@,
            0,
            frags,
            vars,
            caps,
            depth,
        ),
{
    let (r, c) = spec_match_selection(p, spread, frags, vars, caps, depth);
    lemma_any_depth_irrelevant(p, def.selection_set@, 0, frags, vars, caps, (depth - 1) as nat, depth);
    assert(spec_any_selection_from(p, seq![spread], 1, frags, vars, c, depth) == (Ok::<bool, ()>(false), c));
}

/// Items `ps[i..]` match `qs[i..]` pairwise and in order, each with the
/// bindings that the matches before it left.
pub open spec fn items_match_in_order(
    ps: Seq<Value>,
    qs: Seq<Value>,
    i: int,
    vars: Seq<(String, Value)>,
    caps: CaptureSeq,
) -> bool
    decreases ps.len() - i,
{
    if i < 0 || i >= ps.len() {
        true
    } else {
        let (r, c) = spec_match_value(ps[i], qs[i], vars, caps);
        r == Ok::<bool, ()>(true) && items_match_in_order(ps, qs, i + 1, vars, c)
    }
}

/// Two lists match exactly when their lengths are equal and their items
/// match pairwise, in order.
pub proof fn lemma_list_match_iff(
    ps: Vec<Value>,
    qs: Vec<Value>,
    vars: Seq<(String, Value)>,
    caps: CaptureSeq,
)
    ensures
        spec_match_value(Value::List(ps), Value::List(qs), vars, caps).0 == Ok::<bool, ()>(true) <==> (ps@.len()
            == qs@.len() && items_match_in_order(ps@, qs@, 0, vars, caps)),
{
    if ps@.len() == qs@.len() {
        lemma_list_from_iff(ps@, qs@, 0, vars, caps);
    }
}

proof fn lemma_list_from_iff(ps: Seq<Value>, qs: Seq<Value>, i: int, vars: Seq<(String, Value)>, caps: CaptureSeq)
    requires
        0 <= i,
        ps.len() == qs.len(),
    ensures
        spec_match_list_from(ps, qs, i, vars, caps).0 == Ok::<bool, ()>(true) <==> items_match_in_order(
            ps,
            qs,
            i,
            vars,
            caps,
        ),
    decreases ps.len() - i,
{
    if i < ps.len() {
        let (r, c) = spec_match_value(ps[i], qs[i], vars, caps);
        lemma_list_from_iff(ps, qs, i + 1, vars, c);
    }
}

} // verus!
