use vstd::prelude::*;

verus! {

/// A GraphQL input value, as it stands in a predicate or in a query.
///
/// In a predicate, `Variable` is a capture slot (`$name`); in a query it names an
/// entry of the request's variables. A float is held by its bit pattern, so that
/// two floats are equal when their bits are.
#[derive(Debug)]
pub enum Value {
    Variable(String),
    Int(i64),
    Float(u64),
    Str(String),
    Boolean(bool),
    Null,
    Enum(String),
    List(Vec<Value>),
    Object(Vec<(String, Value)>),
}

/// A directive (`@name(args)`) on a selection.
#[derive(Debug)]
pub struct Directive {
    pub name: String,
    pub arguments: Vec<(String, Value)>,
}

/// A field selection: its name, its arguments and its own selections.
/// Aliases and directives are not matched, so they are not held.
#[derive(Debug)]
pub struct Field {
    pub name: String,
    pub arguments: Vec<(String, Value)>,
    pub selection_set: Vec<Selection>,
}

/// A fragment spread (`...name`), and whether it carries directives.
#[derive(Debug)]
pub struct FragmentSpread {
    pub fragment_name: String,
    pub has_directives: bool,
}

/// One item of a selection set.
#[derive(Debug)]
pub enum Selection {
    Field(Field),
    FragmentSpread(FragmentSpread),
    InlineFragment,
}

/// A fragment definition of a query document.
#[derive(Debug)]
pub struct FragmentDefinition {
    pub name: String,
    pub has_directives: bool,
    pub selection_set: Vec<Selection>,
}

/// A value that a capture slot binds, usable in expressions.
#[derive(Clone, Copy, Debug, PartialEq, Eq, Structural)]
pub enum Captured {
    Int(i64),
    Bool(bool),
}

/// A value as the grammar sees it: strings as character sequences.
pub enum VValue {
    Variable(Seq<char>),
    Int(i64),
    Float(u64),
    Str(Seq<char>),
    Boolean(bool),
    Null,
    Enum(Seq<char>),
    List(Seq<VValue>),
    Object(Seq<(Seq<char>, VValue)>),
}

pub open spec fn vval(v: Value) -> VValue
    decreases v, 0int,
{
    match v {
        Value::Variable(s) => VValue::Variable(s@),
        Value::Int(i) => VValue::Int(i),
        Value::Float(f) => VValue::Float(f),
        Value::Str(s) => VValue::Str(s@),
        Value::Boolean(b) => VValue::Boolean(b),
        Value::Null => VValue::Null,
        Value::Enum(s) => VValue::Enum(s@),
        Value::List(items) => VValue::List(vvals_from(items@, 0)),
        Value::Object(entries) => VValue::Object(ventries_from(entries@, 0)),
    }
}

pub open spec fn vvals_from(s: Seq<Value>, i: int) -> Seq<VValue>
    decreases s, s.len() - i,
{
    if i < 0 || i >= s.len() {
        Seq::empty()
    } else {
        seq![vval(s[i])] + vvals_from(s, i + 1)
    }
}

pub open spec fn ventries_from(s: Seq<(String, Value)>, i: int) -> Seq<(Seq<char>, VValue)>
    decreases s, s.len() - i,
{
    if i < 0 || i >= s.len() {
        Seq::empty()
    } else {
        seq![(s[i].0@, vval(s[i].1))] + ventries_from(s, i + 1)
    }
}

/// A selection as the grammar sees it.
pub enum VSelection {
    Field(Seq<char>, Seq<(Seq<char>, VValue)>, Seq<VSelection>),
    FragmentSpread(Seq<char>, bool),
    InlineFragment,
}

pub open spec fn vsel(s: Selection) -> VSelection
    decreases s, 0int,
{
    match s {
        Selection::Field(f) => VSelection::Field(
            f.name@,
            ventries_from(f.arguments@, 0),
            vsels_from(f.selection_set@, 0),
        ),
        Selection::FragmentSpread(sp) => VSelection::FragmentSpread(sp.fragment_name@, sp.has_directives),
        Selection::InlineFragment => VSelection::InlineFragment,
    }
}

pub open spec fn vsels_from(s: Seq<Selection>, i: int) -> Seq<VSelection>
    decreases s, s.len() - i,
{
    if i < 0 || i >= s.len() {
        Seq::empty()
    } else {
        seq![vsel(s[i])] + vsels_from(s, i + 1)
    }
}

pub proof fn lemma_vvals_push(s: Seq<Value>, v: Value, i: int)
    requires
        0 <= i <= s.len(),
    ensures
        vvals_from(s.push(v), i) == vvals_from(s, i) + seq![vval(v)],
    decreases s.len() - i,
{
    if i < s.len() {
        lemma_vvals_push(s, v, i + 1);
        assert(seq![vval(s[i])] + (vvals_from(s, i + 1) + seq![vval(v)]) =~= (seq![vval(s[i])] + vvals_from(
            s,
            i + 1,
        )) + seq![vval(v)]);
    } else {
        assert(vvals_from(s.push(v), i + 1) =~= Seq::<VValue>::empty());
        assert(vvals_from(s.push(v), i) =~= vvals_from(s, i) + seq![vval(v)]);
    }
}

pub proof fn lemma_ventries_push(s: Seq<(String, Value)>, v: (String, Value), i: int)
    requires
        0 <= i <= s.len(),
    ensures
        ventries_from(s.push(v), i) == ventries_from(s, i) + seq![(v.0@, vval(v.1))],
    decreases s.len() - i,
{
    if i < s.len() {
        lemma_ventries_push(s, v, i + 1);
        assert(seq![(s[i].0@, vval(s[i].1))] + (ventries_from(s, i + 1) + seq![(v.0@, vval(v.1))])
            =~= (seq![(s[i].0@, vval(s[i].1))] + ventries_from(s, i + 1)) + seq![(v.0@, vval(v.1))]);
    } else {
        assert(ventries_from(s.push(v), i + 1) =~= Seq::<(Seq<char>, VValue)>::empty());
        assert(ventries_from(s.push(v), i) =~= ventries_from(s, i) + seq![(v.0@, vval(v.1))]);
    }
}

pub proof fn lemma_vsels_push(s: Seq<Selection>, v: Selection, i: int)
    requires
        0 <= i <= s.len(),
    ensures
        vsels_from(s.push(v), i) == vsels_from(s, i) + seq![vsel(v)],
    decreases s.len() - i,
{
    if i < s.len() {
        lemma_vsels_push(s, v, i + 1);
        assert(seq![vsel(s[i])] + (vsels_from(s, i + 1) + seq![vsel(v)]) =~= (seq![vsel(s[i])] + vsels_from(
            s,
            i + 1,
        )) + seq![vsel(v)]);
    } else {
        assert(vsels_from(s.push(v), i + 1) =~= Seq::<VSelection>::empty());
        assert(vsels_from(s.push(v), i) =~= vsels_from(s, i) + seq![vsel(v)]);
    }
}

} // verus!
