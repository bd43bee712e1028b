use vstd::prelude::*;
use crate::ast::{ventries_from, vsel, vsels_from, Field, FragmentDefinition, Selection, VSelection, VValue, Value};
use crate::captures::{Captures, CaptureSeq, QueryVariables};
use crate::lexer::{spec_tokenize, tokenize, tokens_view, Token, VToken};
use crate::matching::{match_selections, spec_match_selection};
use crate::bignum::{big_from_i64, BigNum};
use crate::eval::{eval, is_truthy, spec_eval, truthy, Evaluated, Val};
use crate::number::{num_add, number_from_big, spec_add, spec_to_cost, to_cost, max_cost, Num, Number};
use crate::parser::{
    name_at, parse_expr, parse_selection_set, parse_value, spec_name_at, spec_parse_expr, spec_parse_selection_set,
    spec_parse_value, spec_sym2_at, spec_sym_at, sym2_at, sym_at, vexpr, Expr, VExpr,
};

verus! {

/// The capture names bound in value `v`, in order, each as often as it occurs.
pub open spec fn value_captures(v: Value) -> Seq<Seq<char>>
    decreases v, 0int,
{
    match v {
        Value::Variable(name) => seq![name@],
        Value::List(items) => values_captures_from(items@, 0),
        Value::Object(entries) => entries_captures_from(entries@, 0),
        _ => Seq::empty(),
    }
}

pub open spec fn values_captures_from(vs: Seq<Value>, i: int) -> Seq<Seq<char>>
    decreases vs, vs.len() - i,
{
    if i < 0 || i >= vs.len() {
        Seq::empty()
    } else {
        value_captures(vs[i]) + values_captures_from(vs, i + 1)
    }
}

pub open spec fn entries_captures_from(es: Seq<(String, Value)>, i: int) -> Seq<Seq<char>>
    decreases es, es.len() - i,
{
    if i < 0 || i >= es.len() {
        Seq::empty()
    } else {
        value_captures(es[i].1) + entries_captures_from(es, i + 1)
    }
}

/// The capture names bound in selection `s` and all that it holds.
pub open spec fn selection_captures(s: Selection) -> Seq<Seq<char>>
    decreases s, 0int, 0int,
{
    match s {
        Selection::Field(f) => field_captures(f),
        _ => Seq::empty(),
    }
}

pub open spec fn field_captures(f: Field) -> Seq<Seq<char>>
    decreases f, 1int, 0int,
{
    entries_captures_from(f.arguments@, 0) + subselection_captures_from(f, 0)
}

pub open spec fn subselection_captures_from(f: Field, i: int) -> Seq<Seq<char>>
    decreases f, 0int, f.selection_set@.len() - i,
{
    if i < 0 || i >= f.selection_set@.len() {
        Seq::empty()
    } else {
        selection_captures(f.selection_set@[i]) + subselection_captures_from(f, i + 1)
    }
}

pub open spec fn names_view(v: Seq<String>) -> Seq<Seq<char>> {
    v.map_values(|s: String| s@)
}

fn collect_value(v: &Value, out: &mut Vec<String>)
    ensures
        names_view(final(out)@) == names_view(old(out)@) + value_captures(*v),
    decreases v, 0int,
{
    match v {
        Value::Variable(name) => {
            let ghost before = names_view(out@);
            out.push(name.clone());
            assert(names_view(out@) =~= before + seq![name@]);
        },
        Value::List(items) => {
            collect_values(items, out);
        },
        Value::Object(entries) => {
            collect_entries(entries, out);
        },
        _ => {
            assert(names_view(out@) =~= names_view(out@) + value_captures(*v));
        },
    }
}

fn collect_values(items: &Vec<Value>, out: &mut Vec<String>)
    ensures
        names_view(final(out)@) == names_view(old(out)@) + values_captures_from(items@, 0),
    decreases items, 0int,
{
    let ghost start = names_view(out@);
    let mut i: usize = 0;
    while i < items.len()
        invariant
            i <= items@.len(),
            start == names_view(old(out)@),
            start + values_captures_from(items@, 0) == names_view(out@) + values_captures_from(
                items@,
                i as int,
            ),
        decreases items@.len() - i,
    {
        let ghost before = names_view(out@);
        collect_value(&items[i], out);
        assert(before + values_captures_from(items@, i as int) =~= names_view(out@)
            + values_captures_from(items@, i + 1));
        i = i + 1;
    }
    assert(names_view(out@) + values_captures_from(items@, i as int) =~= names_view(out@));
}

fn collect_entries(entries: &Vec<(String, Value)>, out: &mut Vec<String>)
    ensures
        names_view(final(out)@) == names_view(old(out)@) + entries_captures_from(entries@, 0),
    decreases entries, 0int,
{
    let ghost start = names_view(out@);
    let mut i: usize = 0;
    while i < entries.len()
        invariant
            i <= entries@.len(),
            start == names_view(old(out)@),
            start + entries_captures_from(entries@, 0) == names_view(out@) + entries_captures_from(
                entries@,
                i as int,
            ),
        decreases entries@.len() - i,
    {
        let ghost before = names_view(out@);
        collect_value(&entries[i].1, out);
        assert(before + entries_captures_from(entries@, i as int) =~= names_view(out@)
            + entries_captures_from(entries@, i + 1));
        i = i + 1;
    }
    assert(names_view(out@) + entries_captures_from(entries@, i as int) =~= names_view(out@));
}

fn collect_selection(s: &Selection, out: &mut Vec<String>)
    ensures
        names_view(final(out)@) == names_view(old(out)@) + selection_captures(*s),
    decreases s, 0int, 0int,
{
    match s {
        Selection::Field(f) => collect_field(f, out),
        _ => {
            assert(names_view(out@) =~= names_view(out@) + selection_captures(*s));
        },
    }
}

fn collect_field(f: &Field, out: &mut Vec<String>)
    ensures
        names_view(final(out)@) == names_view(old(out)@) + field_captures(*f),
    decreases f, 1int, 0int,
{
    let ghost start = names_view(out@);
    collect_entries(&f.arguments, out);
    let ghost mid = names_view(out@);
    let mut i: usize = 0;
    while i < f.selection_set.len()
        invariant
            i <= f.selection_set@.len(),
            mid + subselection_captures_from(*f, 0) == names_view(out@) + subselection_captures_from(
                *f,
                i as int,
            ),
        decreases f.selection_set@.len() - i,
    {
        let ghost before = names_view(out@);
        collect_selection(&f.selection_set[i], out);
        assert(before + subselection_captures_from(*f, i as int) =~= names_view(out@)
            + subselection_captures_from(*f, i + 1));
        i = i + 1;
    }
    assert(names_view(out@) + subselection_captures_from(*f, i as int) =~= names_view(out@));
    assert(start + field_captures(*f) =~= mid + subselection_captures_from(*f, 0));
}

/// Whether no name occurs twice in `names`.
fn all_distinct(names: &Vec<String>) -> (r: bool)
    ensures
        r == names_view(names@).no_duplicates(),
{
    let n = names.len();
    let ghost s = names_view(names@);
    let mut i: usize = 0;
    while i < n
        invariant
            n == names@.len(),
            s == names_view(names@),
            i <= n,
            forall|a: int, b: int| 0 <= a < i && a < b < n ==> s[a] != s[b],
        decreases n - i,
    {
        let mut j: usize = i + 1;
        while j < n
            invariant
                n == names@.len(),
                s == names_view(names@),
                i < n,
                i < j <= n,
                forall|a: int, b: int| 0 <= a < i && a < b < n ==> s[a] != s[b],
                forall|b: int| i < b < j ==> s[i as int] != s[b],
            decreases n - j,
        {
            if names[i] == names[j] {
                assert(s[i as int] == s[j as int]);
                return false;
            }
            j = j + 1;
        }
        i = i + 1;
    }
    assert forall|a: int, b: int| 0 <= a < s.len() && 0 <= b < s.len() && a != b implies s[a] != s[b] by {
        if a < b {
        } else {
            assert(s[b] != s[a]);
        }
    }
    true
}

/// Whether every capture name of predicate selection `s` occurs only once.
pub fn captures_distinct(s: &Selection) -> (r: bool)
    ensures
        r == selection_captures(*s).no_duplicates(),
{
    let mut names: Vec<String> = Vec::new();
    assert(names_view(names@) =~= Seq::<Seq<char>>::empty());
    collect_selection(s, &mut names);
    assert(names_view(names@) =~= selection_captures(*s));
    all_distinct(&names)
}

/// The head of a statement: `default`, which matches every selection, or one
/// selection that is matched structurally.
#[derive(Debug)]
pub enum Predicate {
    Default,
    Selection(Selection),
}

/// `predicate (when condition)? => cost`
#[derive(Debug)]
pub struct Statement {
    pub predicate: Predicate,
    pub when: Option<Expr>,
    pub cost: Expr,
}

/// Why a cost model was refused.
#[derive(Debug, Clone, Copy, PartialEq, Eq, Structural)]
pub enum CompileError {
    /// The source does not follow the grammar of the language.
    Syntax,
    /// One predicate binds the same capture name in two positions.
    CaptureReused,
    /// A `default` statement with a `when` clause.
    DefaultWithWhen,
    /// The globals are not an object.
    Globals,
}

/// Whether a statement may stand in a compiled model: a selection predicate
/// binds each capture name once, and `default` has no `when` clause.
pub open spec fn statement_wf(st: Statement) -> bool {
    match st.predicate {
        Predicate::Default => st.when is None,
        Predicate::Selection(s) => selection_captures(s).no_duplicates(),
    }
}

/// A compiled cost model: its statements in source order and its globals.
#[derive(Debug)]
pub struct CostModel {
    pub statements: Vec<Statement>,
    pub globals: Vec<(String, Value)>,
}

/// What trying statement `st` on top-level selection `sel` gives, with fresh
/// captures.
pub open spec fn statement_outcome(
    st: Statement,
    sel: Selection,
    frags: Seq<FragmentDefinition>,
    vars: Seq<(String, Value)>,
) -> (Result<bool, ()>, CaptureSeq) {
    match st.predicate {
        Predicate::Default => (Ok(true), Seq::empty()),
        Predicate::Selection(p) => spec_match_selection(p, sel, frags, vars, Seq::empty(), frags.len()),
    }
}

/// Whether statement `st` matches top-level selection `sel`.
pub open spec fn statement_accepts(
    st: Statement,
    sel: Selection,
    frags: Seq<FragmentDefinition>,
    vars: Seq<(String, Value)>,
) -> bool {
    statement_outcome(st, sel, frags, vars).0 == Ok::<bool, ()>(true)
}

/// The index of the first statement among `stmts[i..]` that matches `sel`.
pub open spec fn first_accepting(
    stmts: Seq<Statement>,
    i: int,
    sel: Selection,
    frags: Seq<FragmentDefinition>,
    vars: Seq<(String, Value)>,
) -> Option<int>
    decreases stmts.len() - i,
{
    if i < 0 || i >= stmts.len() {
        None
    } else if statement_accepts(stmts[i], sel, frags, vars) {
        Some(i)
    } else {
        first_accepting(stmts, i + 1, sel, frags, vars)
    }
}

/// Of two statements that both match a selection, the earlier one is the one
/// that dispatch picks.
pub proof fn lemma_first_match_wins(
    stmts: Seq<Statement>,
    from: int,
    i: int,
    j: int,
    sel: Selection,
    frags: Seq<FragmentDefinition>,
    vars: Seq<(String, Value)>,
)
    requires
        0 <= from <= i < j < stmts.len(),
        statement_accepts(stmts[i], sel, frags, vars),
        statement_accepts(stmts[j], sel, frags, vars),
    ensures
        first_accepting(stmts, from, sel, frags, vars) is Some,
        first_accepting(stmts, from, sel, frags, vars)->Some_0 <= i,
    decreases i - from,
{
    if from < i && !statement_accepts(stmts[from], sel, frags, vars) {
        lemma_first_match_wins(stmts, from + 1, i, j, sel, frags, vars);
    }
}

/// A statement as the grammar sees it.
pub enum VPredicate {
    Default,
    Selection(VSelection),
}

pub struct VStatement {
    pub predicate: VPredicate,
    pub when: Option<VExpr>,
    pub cost: VExpr,
}

pub open spec fn vstmt(st: Statement) -> VStatement {
    VStatement {
        predicate: match st.predicate {
            Predicate::Default => VPredicate::Default,
            Predicate::Selection(s) => VPredicate::Selection(vsel(s)),
        },
        when: match st.when {
            Some(w) => Some(vexpr(w)),
            None => None,
        },
        cost: vexpr(st.cost),
    }
}

pub open spec fn vstmts(s: Seq<Statement>) -> Seq<VStatement> {
    s.map_values(|st: Statement| vstmt(st))
}

/// A statement at `pos`: `default` or `query { field }`, an optional
/// `when` condition (not after `default`), `=>` and the cost.
pub open spec fn spec_parse_statement(t: Seq<VToken>, pos: int) -> Result<(VStatement, int), CompileError> {
    let pred: Result<(VPredicate, int), CompileError> = if spec_name_at(
        t,
        pos,
        seq!['d', 'e', 'f', 'a', 'u', 'l', 't'],
    ) {
        Ok((VPredicate::Default, pos + 1))
    } else if spec_name_at(t, pos, seq!['q', 'u', 'e', 'r', 'y']) {
        match spec_parse_selection_set(t, pos + 1) {
            Ok((items, next)) => if items.len() != 1 {
                Err(CompileError::Syntax)
            } else {
                Ok((VPredicate::Selection(items[0]), next))
            },
            Err(_) => Err(CompileError::Syntax),
        }
    } else {
        Err(CompileError::Syntax)
    };
    match pred {
        Err(e) => Err(e),
        Ok((predicate, p)) => {
            let when: Result<(Option<VExpr>, int), CompileError> = if spec_name_at(
                t,
                p,
                seq!['w', 'h', 'e', 'n'],
            ) {
                if predicate is Default {
                    Err(CompileError::DefaultWithWhen)
                } else {
                    match spec_parse_expr(t, p + 1, 0) {
                        Ok((e, next)) => Ok((Some(e), next)),
                        Err(_) => Err(CompileError::Syntax),
                    }
                }
            } else {
                Ok((None, p))
            };
            match when {
                Err(e) => Err(e),
                Ok((w, q)) => if !spec_sym2_at(t, q, '=', '>') {
                    Err(CompileError::Syntax)
                } else {
                    match spec_parse_expr(t, q + 1, 0) {
                        Ok((c, next)) => Ok((VStatement { predicate, when: w, cost: c }, next)),
                        Err(_) => Err(CompileError::Syntax),
                    }
                },
            }
        },
    }
}

/// The statements from `p` on, after `acc`: separated by `;`, with an
/// optional `;` after the last one.
pub open spec fn spec_model_from(t: Seq<VToken>, p: int, acc: Seq<VStatement>) -> Result<
    Seq<VStatement>,
    CompileError,
>
    decreases t.len() - p,
{
    match spec_parse_statement(t, p) {
        Err(e) => Err(e),
        Ok((st, next)) => if next <= p || next > t.len() {
            Err(CompileError::Syntax)
        } else if next == t.len() {
            Ok(acc.push(st))
        } else if !spec_sym_at(t, next, ';') {
            Err(CompileError::Syntax)
        } else if next + 1 == t.len() {
            Ok(acc.push(st))
        } else {
            spec_model_from(t, next + 1, acc.push(st))
        },
    }
}

/// The statements that model source `src` reads as, or the error that its
/// text gives.
pub open spec fn spec_statements(src: Seq<char>) -> Result<Seq<VStatement>, CompileError> {
    match spec_tokenize(src) {
        None => Err(CompileError::Syntax),
        Some(t) => spec_model_from(t, 0, Seq::empty()),
    }
}

/// The entries that `src` reads as: none for text without tokens, else one
/// object literal that takes all of it.
pub open spec fn spec_object(src: Seq<char>) -> Option<Seq<(Seq<char>, VValue)>> {
    match spec_tokenize(src) {
        None => None,
        Some(t) => if t.len() == 0 {
            Some(Seq::empty())
        } else {
            match spec_parse_value(t, 0) {
                Ok((VValue::Object(es), next)) => if next == t.len() {
                    Some(es)
                } else {
                    None
                },
                _ => None,
            }
        },
    }
}

proof fn lemma_vsels_len(s: Seq<Selection>, i: int)
    requires
        0 <= i <= s.len(),
    ensures
        vsels_from(s, i).len() == s.len() - i,
    decreases s.len() - i,
{
    if i < s.len() {
        lemma_vsels_len(s, i + 1);
    }
}

fn parse_statement(toks: &Vec<Token>, pos: usize) -> (r: Result<(Statement, usize), CompileError>)
    ensures
        match r {
            Ok((st, next)) => spec_parse_statement(tokens_view(toks@), pos as int) == Ok::<
                (VStatement, int),
                CompileError,
            >((vstmt(st), next as int)) && pos < next <= toks@.len() && (st.predicate is Default
                ==> st.when is None),
            Err(e) => spec_parse_statement(tokens_view(toks@), pos as int) == Err::<(VStatement, int), CompileError>(e),
        },
{
    proof {
        reveal_strlit("default");
        reveal_strlit("query");
        reveal_strlit("when");
        assert("default"@ =~= seq!['d', 'e', 'f', 'a', 'u', 'l', 't']);
        assert("query"@ =~= seq!['q', 'u', 'e', 'r', 'y']);
        assert("when"@ =~= seq!['w', 'h', 'e', 'n']);
    }
    let n = toks.len();
    let mut p: usize;
    let predicate = if name_at(toks, pos, "default") {
        p = pos + 1;
        Predicate::Default
    } else if name_at(toks, pos, "query") {
        let (mut items, next) = match parse_selection_set(toks, pos + 1) {
            Ok(x) => x,
            Err(_) => {
                return Err(CompileError::Syntax);
            },
        };
        proof {
            lemma_vsels_len(items@, 0);
        }
        p = next;
        if items.len() != 1 {
            return Err(CompileError::Syntax);
        }
        let ghost before = items@;
        let sel = items.pop().unwrap();
        proof {
            assert(vsels_from(before, 0)[0] == vsel(before[0]));
        }
        Predicate::Selection(sel)
    } else {
        return Err(CompileError::Syntax);
    };
    let mut when: Option<Expr> = None;
    if name_at(toks, p, "when") {
        if let Predicate::Default = predicate {
            return Err(CompileError::DefaultWithWhen);
        }
        match parse_expr(toks, p + 1, 0) {
            Ok((e, next)) => {
                when = Some(e);
                p = next;
            },
            Err(_) => {
                return Err(CompileError::Syntax);
            },
        }
    }
    if !sym2_at(toks, p, '=', '>') {
        return Err(CompileError::Syntax);
    }
    match parse_expr(toks, p + 1, 0) {
        Ok((cost, next)) => Ok((Statement { predicate, when, cost }, next)),
        Err(_) => Err(CompileError::Syntax),
    }
}

/// Reads named values, as `spec_object` says: nothing at all (no entries),
/// or one object literal whose keys may be quoted. A JSON object of
/// integers, strings, booleans, null, lists and objects is accepted.
pub fn parse_object(src: &str) -> (r: Result<Vec<(String, Value)>, ()>)
    ensures
        match r {
            Ok(v) => spec_object(src@) == Some(ventries_from(v@, 0)),
            Err(_) => spec_object(src@) is None,
        },
{
    let toks = match tokenize(src) {
        Ok(t) => t,
        Err(_) => {
            return Err(());
        },
    };
    if toks.len() == 0 {
        let v: Vec<(String, Value)> = Vec::new();
        assert(ventries_from(v@, 0) =~= Seq::<(Seq<char>, VValue)>::empty());
        return Ok(v);
    }
    match parse_value(&toks, 0) {
        Ok((Value::Object(entries), next)) => if next == toks.len() {
            Ok(entries)
        } else {
            Err(())
        },
        _ => Err(()),
    }
}

impl CostModel {
    /// Every statement may stand in a model, and there is at least one.
    pub open spec fn wf(&self) -> bool {
        &&& self.statements@.len() > 0
        &&& forall|k: int| 0 <= k < self.statements@.len() ==> statement_wf(#[trigger] self.statements@[k])
    }

    /// Compiles cost-model source and its globals. The statements are those
    /// that `spec_statements` reads from the source, and the globals the
    /// entries that `spec_object` reads from `globals`. A source that does
    /// not read as statements gives the error that `spec_statements` gives;
    /// one whose statements read well but where some predicate binds a
    /// capture name twice gives `CaptureReused`; then globals text that does
    /// not read as an object gives `Globals`.
    pub fn compile(model: &str, globals: &str) -> (r: Result<CostModel, CompileError>)
        ensures
            match r {
                Ok(m) => {
                    &&& m.wf()
                    &&& spec_statements(model@) == Ok::<Seq<VStatement>, CompileError>(vstmts(m.statements@))
                    &&& spec_object(globals@) == Some(ventries_from(m.globals@, 0))
                },
                Err(CompileError::CaptureReused) => {
                    &&& spec_statements(model@) is Ok
                    &&& exists|k: int, sel: Selection|
                        0 <= k < spec_statements(model@)->Ok_0.len() && spec_statements(model@)->Ok_0[k].predicate
                            == VPredicate::Selection(vsel(sel)) && !selection_captures(sel).no_duplicates()
                },
                Err(CompileError::Globals) => spec_statements(model@) is Ok && spec_object(globals@) is None,
                Err(e) => spec_statements(model@) == Err::<Seq<VStatement>, CompileError>(e),
            },
    {
        let toks = match tokenize(model) {
            Ok(t) => t,
            Err(_) => {
                return Err(CompileError::Syntax);
            },
        };
        let ghost t = tokens_view(toks@);
        let n = toks.len();
        let mut statements: Vec<Statement> = Vec::new();
        let mut p: usize = 0;
        proof {
            assert(vstmts(statements@) =~= Seq::<VStatement>::empty());
        }
        loop
            invariant_except_break
                p < n || (p == n && statements@.len() == 0),
                spec_model_from(t, 0, Seq::empty()) == spec_model_from(t, p as int, vstmts(statements@)),
            invariant
                n == toks@.len(),
                t == tokens_view(toks@),
                spec_tokenize(model@) == Some(t),
                forall|k: int| 0 <= k < statements@.len() ==> (#[trigger] statements@[k]).predicate is Default
                    ==> statements@[k].when is None,
            ensures
                spec_tokenize(model@) == Some(t),
                statements@.len() > 0,
                spec_model_from(t, 0, Seq::empty()) == Ok::<Seq<VStatement>, CompileError>(vstmts(statements@)),
                forall|k: int| 0 <= k < statements@.len() ==> (#[trigger] statements@[k]).predicate is Default
                    ==> statements@[k].when is None,
            decreases n - p,
        {
            let (st, next) = match parse_statement(&toks, p) {
                Ok(x) => x,
                Err(e) => {
                    return Err(e);
                },
            };
            proof {
                assert(vstmts(statements@.push(st)) =~= vstmts(statements@).push(vstmt(st)));
            }
            statements.push(st);
            if next == n {
                break;
            }
            if !sym_at(&toks, next, ';') {
                return Err(CompileError::Syntax);
            }
            if next + 1 == n {
                break;
            }
            p = next + 1;
        }
        let ghost vs = vstmts(statements@);
        let mut k: usize = 0;
        while k < statements.len()
            invariant
                k <= statements@.len(),
                vs == vstmts(statements@),
                spec_statements(model@) == Ok::<Seq<VStatement>, CompileError>(vs),
                forall|j: int| 0 <= j < k ==> statement_wf(#[trigger] statements@[j]),
                forall|j: int| 0 <= j < statements@.len() ==> (#[trigger] statements@[j]).predicate is Default
                    ==> statements@[j].when is None,
            decreases statements@.len() - k,
        {
            if let Predicate::Selection(sel) = &statements[k].predicate {
                if !captures_distinct(sel) {
                    proof {
                        assert(vs[k as int].predicate == VPredicate::Selection(vsel(*sel)));
                        assert(!selection_captures(*sel).no_duplicates());
                        assert(spec_statements(model@)->Ok_0 == vs);
                        assert(exists|k2: int, s2: Selection|
                            0 <= k2 < spec_statements(model@)->Ok_0.len() && spec_statements(model@)->Ok_0[k2].predicate
                                == VPredicate::Selection(vsel(s2)) && !selection_captures(s2).no_duplicates());
                    }
                    return Err(CompileError::CaptureReused);
                }
            }
            k = k + 1;
        }
        let globals = match parse_object(globals) {
            Ok(g) => g,
            Err(_) => {
                return Err(CompileError::Globals);
            },
        };
        Ok(CostModel { statements, globals })
    }

    /// The first statement at index `from` or later that matches top-level
    /// selection `selection`, with the captures that its match made. A
    /// caller whose `when` clause refuses that statement resumes one past it.
    pub fn first_match(
        &self,
        from: usize,
        selection: &Selection,
        fragments: &[FragmentDefinition],
        variables: &QueryVariables,
    ) -> (r: Option<(usize, Captures)>)
        ensures
            match r {
                Some((k, c)) => {
                    &&& first_accepting(self.statements@, from as int, *selection, fragments@, variables.entries@)
                        == Some(k as int)
                    &&& c@ == statement_outcome(self.statements@[k as int], *selection, fragments@, variables.entries@).1
                },
                None => first_accepting(self.statements@, from as int, *selection, fragments@, variables.entries@)
                    is None,
            },
    {
        let mut k = from;
        while k < self.statements.len()
            invariant
                from <= k,
                first_accepting(self.statements@, from as int, *selection, fragments@, variables.entries@)
                    == first_accepting(self.statements@, k as int, *selection, fragments@, variables.entries@),
            decreases self.statements@.len() - k,
        {
            let mut captures = Captures::new();
            let ok = match &self.statements[k].predicate {
                Predicate::Default => true,
                Predicate::Selection(p) => match match_selections(p, selection, fragments, variables, &mut captures) {
                    Ok(true) => true,
                    _ => false,
                },
            };
            if ok {
                return Some((k, captures));
            }
            k = k + 1;
        }
        None
    }
}

/// Why a query could not be costed.
#[derive(Debug, Clone, Copy, PartialEq, Eq, Structural)]
pub enum CostError {
    /// The query document is not valid GraphQL.
    FailedToParseQuery,
    /// The variables are not a valid JSON object.
    FailedToParseVariables,
    /// A top-level selection matched no statement.
    QueryNotCosted,
    /// A matched statement's `when` clause or cost could not be evaluated, or
    /// the total is not a finite number.
    CostModelFail,
}

/// The cost of top-level selection `sel` by the statements from index `from`
/// on: the first one that matches and whose `when` clause, if any, is true
/// gives its cost. `None` when no statement does; an error when a clause or
/// a cost cannot be evaluated, or a cost is not a number.
pub open spec fn spec_select(
    stmts: Seq<Statement>,
    from: int,
    sel: Selection,
    frags: Seq<FragmentDefinition>,
    vars: Seq<(String, Value)>,
    globals: Seq<(String, Value)>,
) -> Result<Option<Num>, ()>
    decreases stmts.len() - from,
{
    match first_accepting(stmts, from, sel, frags, vars) {
        None => Ok(None),
        Some(k) => if k < from || k >= stmts.len() {
            Ok(None)
        } else {
            let caps = statement_outcome(stmts[k], sel, frags, vars).1;
            let go = match stmts[k].when {
                None => Ok(true),
                Some(w) => match spec_eval(w, caps, globals) {
                    Ok(v) => Ok(truthy(v)),
                    Err(_) => Err(()),
                },
            };
            match go {
                Err(_) => Err(()),
                Ok(false) => spec_select(stmts, k + 1, sel, frags, vars, globals),
                Ok(true) => match spec_eval(stmts[k].cost, caps, globals) {
                    Ok(Val::Num(n)) => Ok(Some(n)),
                    _ => Err(()),
                },
            }
        },
    }
}

/// `acc` plus the costs of `sels[i..]`, in order; the first selection that
/// cannot be costed decides the error.
pub open spec fn spec_total_from(
    stmts: Seq<Statement>,
    sels: Seq<Selection>,
    i: int,
    frags: Seq<FragmentDefinition>,
    vars: Seq<(String, Value)>,
    globals: Seq<(String, Value)>,
    acc: Num,
) -> Result<Num, CostError>
    decreases sels.len() - i,
{
    if i < 0 || i >= sels.len() {
        Ok(acc)
    } else {
        match spec_select(stmts, 0, sels[i], frags, vars, globals) {
            Err(_) => Err(CostError::CostModelFail),
            Ok(None) => Err(CostError::QueryNotCosted),
            Ok(Some(n)) => spec_total_from(stmts, sels, i + 1, frags, vars, globals, spec_add(acc, n)),
        }
    }
}

/// The cost of a query with top-level selections `sels`: the exact sum of
/// their costs, rounded toward zero and held within `[0, 2^256 - 1]` once.
pub open spec fn spec_cost(
    m: CostModel,
    sels: Seq<Selection>,
    frags: Seq<FragmentDefinition>,
    vars: Seq<(String, Value)>,
) -> Result<int, CostError> {
    match spec_total_from(m.statements@, sels, 0, frags, vars, m.globals@, Num::Fin(0, 1)) {
        Err(e) => Err(e),
        Ok(t) => match spec_to_cost(t) {
            Some(c) => Ok(c),
            None => Err(CostError::CostModelFail),
        },
    }
}

/// A cost is never negative and never above 2^256 - 1.
pub proof fn lemma_cost_in_range(
    m: CostModel,
    sels: Seq<Selection>,
    frags: Seq<FragmentDefinition>,
    vars: Seq<(String, Value)>,
)
    ensures
        spec_cost(m, sels, frags, vars) matches Ok(c) ==> 0 <= c <= max_cost(),
{
}

proof fn lemma_first_accepting_range(
    stmts: Seq<Statement>,
    i: int,
    sel: Selection,
    frags: Seq<FragmentDefinition>,
    vars: Seq<(String, Value)>,
)
    requires
        0 <= i,
    ensures
        first_accepting(stmts, i, sel, frags, vars) matches Some(k) ==> i <= k < stmts.len(),
    decreases stmts.len() - i,
{
    if i < stmts.len() && !statement_accepts(stmts[i], sel, frags, vars) {
        lemma_first_accepting_range(stmts, i + 1, sel, frags, vars);
    }
}

impl CostModel {
    /// The cost of top-level selection `selection`, as `spec_select` gives it.
    pub fn select(
        &self,
        selection: &Selection,
        fragments: &[FragmentDefinition],
        variables: &QueryVariables,
    ) -> (r: Result<Option<Number>, ()>)
        ensures
            match r {
                Ok(Some(n)) => n.wf() && spec_select(
                    self.statements@,
                    0,
                    *selection,
                    fragments@,
                    variables.entries@,
                    self.globals@,
                ) == Ok::<Option<Num>, ()>(Some(n.num())),
                Ok(None) => spec_select(self.statements@, 0, *selection, fragments@, variables.entries@, self.globals@)
                    == Ok::<Option<Num>, ()>(None),
                Err(_) => spec_select(self.statements@, 0, *selection, fragments@, variables.entries@, self.globals@)
                    is Err,
            },
    {
        let ghost target = spec_select(self.statements@, 0, *selection, fragments@, variables.entries@, self.globals@);
        let n = self.statements.len();
        let mut from: usize = 0;
        loop
            invariant
                n == self.statements@.len(),
                from <= self.statements@.len(),
                target == spec_select(self.statements@, 0, *selection, fragments@, variables.entries@, self.globals@),
                spec_select(self.statements@, from as int, *selection, fragments@, variables.entries@, self.globals@)
                    == target,
            decreases self.statements@.len() + 1 - from,
        {
            proof {
                lemma_first_accepting_range(self.statements@, from as int, *selection, fragments@, variables.entries@);
            }
            match self.first_match(from, selection, fragments, variables) {
                None => {
                    return Ok(None);
                },
                Some((k, caps)) => {
                    let st = &self.statements[k];
                    let go = match &st.when {
                        None => true,
                        Some(w) => {
                            let v = eval(w, &caps, &self.globals)?;
                            is_truthy(&v)
                        },
                    };
                    if go {
                        let c = eval(&st.cost, &caps, &self.globals)?;
                        return match c {
                            Evaluated::Num(n) => Ok(Some(n)),
                            _ => Err(()),
                        };
                    }
                    from = k + 1;
                },
            }
        }
    }

    /// The cost of a query whose top-level selections are `selections`, as
    /// `spec_cost` gives it.
    pub fn cost_of(
        &self,
        selections: &Vec<Selection>,
        fragments: &[FragmentDefinition],
        variables: &QueryVariables,
    ) -> (r: Result<BigNum, CostError>)
        ensures
            match r {
                Ok(c) => spec_cost(*self, selections@, fragments@, variables.entries@) == Ok::<int, CostError>(c.value()),
                Err(e) => spec_cost(*self, selections@, fragments@, variables.entries@) == Err::<int, CostError>(e),
            },
    {
        let mut acc = number_from_big(big_from_i64(0));
        proof {
            assert(acc.num() == Num::Fin(0, 1));
        }
        let mut i: usize = 0;
        while i < selections.len()
            invariant
                i <= selections@.len(),
                acc.wf(),
                spec_total_from(self.statements@, selections@, i as int, fragments@, variables.entries@, self.globals@, acc.num())
                    == spec_total_from(self.statements@, selections@, 0, fragments@, variables.entries@, self.globals@, Num::Fin(0, 1)),
            decreases selections@.len() - i,
        {
            match self.select(&selections[i], fragments, variables) {
                Err(_) => {
                    return Err(CostError::CostModelFail);
                },
                Ok(None) => {
                    return Err(CostError::QueryNotCosted);
                },
                Ok(Some(n)) => {
                    acc = num_add(&acc, &n);
                },
            }
            i = i + 1;
        }
        match to_cost(&acc) {
            Some(c) => Ok(c),
            None => Err(CostError::CostModelFail),
        }
    }
}

/// For a fixed model and query, the cost is one value: two results that
/// each meet the contract of `CostModel::cost_of` are equal.
pub proof fn lemma_cost_deterministic(
    m: CostModel,
    sels: Seq<Selection>,
    frags: Seq<FragmentDefinition>,
    vars: Seq<(String, Value)>,
    r1: Result<int, CostError>,
    r2: Result<int, CostError>,
)
    requires
        r1 == spec_cost(m, sels, frags, vars),
        r2 == spec_cost(m, sels, frags, vars),
    ensures
        r1 == r2,
{
}

} // verus!
