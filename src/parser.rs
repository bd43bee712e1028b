use vstd::prelude::*;
use crate::ast::{Field, Selection, Value};
use crate::ast::{lemma_ventries_push, lemma_vsels_push, lemma_vvals_push, ventries_from, vsel, vsels_from, vval, vvals_from, VSelection, VValue};
use crate::bignum::{all_decimal_digits, decimal_value};
use crate::lexer::{tokens_view, Token, VToken};

verus! {

/// A binary operator of the expression language.
#[derive(Clone, Copy, Debug, PartialEq, Eq, Structural)]
pub enum BinOp {
    Add,
    Sub,
    Mul,
    Div,
    Eq,
    Ne,
    Lt,
    Le,
    Gt,
    Ge,
    And,
    Or,
}

/// An expression of a `when` clause or of a cost.
#[derive(Debug)]
pub enum Expr {
    /// A non-negative integer constant, in decimal digits.
    Number(String),
    Bool(bool),
    Str(String),
    /// A reference to a capture or a global, without its `$`.
    Var(String),
    Neg(Box<Expr>),
    Not(Box<Expr>),
    Binary(BinOp, Box<Expr>, Box<Expr>),
}

/// Whether a parse step that started at `pos` ended within `toks`, past `pos`.
pub open spec fn advanced<T>(r: Result<(T, usize), ()>, pos: usize, len: nat) -> bool {
    r is Ok ==> pos < r->Ok_0.1 <= len
}

pub open spec fn spec_sym_at(t: Seq<VToken>, pos: int, c: char) -> bool {
    0 <= pos < t.len() && t[pos] == VToken::Sym(c)
}

pub open spec fn spec_sym2_at(t: Seq<VToken>, pos: int, a: char, b: char) -> bool {
    0 <= pos < t.len() && t[pos] == VToken::Sym2(a, b)
}

pub open spec fn spec_name_at(t: Seq<VToken>, pos: int, lit: Seq<char>) -> bool {
    0 <= pos < t.len() && t[pos] == VToken::Name(lit)
}

pub(crate) fn sym_at(toks: &Vec<Token>, pos: usize, c: char) -> (r: bool)
    ensures
        r == spec_sym_at(tokens_view(toks@), pos as int, c),
        r ==> pos < toks@.len(),
{
    pos < toks.len() && match &toks[pos] {
        Token::Sym(d) => *d == c,
        _ => false,
    }
}

pub(crate) fn sym2_at(toks: &Vec<Token>, pos: usize, a: char, b: char) -> (r: bool)
    ensures
        r == spec_sym2_at(tokens_view(toks@), pos as int, a, b),
        r ==> pos < toks@.len(),
{
    pos < toks.len() && match &toks[pos] {
        Token::Sym2(x, y) => *x == a && *y == b,
        _ => false,
    }
}

/// Whether `s` holds exactly the characters of `lit`.
pub(crate) fn text_is(s: &String, lit: &str) -> (r: bool)
    ensures
        r == (s@ == lit@),
{
    let n = s.as_str().unicode_len();
    if n != lit.unicode_len() {
        return false;
    }
    let mut i: usize = 0;
    while i < n
        invariant
            n == s@.len(),
            n == lit@.len(),
            i <= n,
            forall|k: int| 0 <= k < i ==> s@[k] == lit@[k],
        decreases n - i,
    {
        if s.as_str().get_char(i) != lit.get_char(i) {
            return false;
        }
        i = i + 1;
    }
    assert(s@ =~= lit@);
    true
}

pub(crate) fn name_at(toks: &Vec<Token>, pos: usize, lit: &str) -> (r: bool)
    ensures
        r == spec_name_at(tokens_view(toks@), pos as int, lit@),
        r ==> pos < toks@.len(),
{
    pos < toks.len() && match &toks[pos] {
        Token::Name(s) => text_is(s, lit),
        _ => false,
    }
}

/// The value of a run of decimal digits, negated if `negative`, when it is
/// one and fits in an `i64`.
pub open spec fn spec_digits_i64(d: Seq<char>, negative: bool) -> Option<i64> {
    if d.len() > 0 && all_decimal_digits(d) {
        let v = decimal_value(d) as int;
        if negative && v <= 9223372036854775808 {
            Some((-v) as i64)
        } else if !negative && v < 9223372036854775808 {
            Some(v as i64)
        } else {
            None
        }
    } else {
        None
    }
}

proof fn lemma_decimal_prefix(s: Seq<char>, i: int)
    requires
        0 <= i <= s.len(),
        all_decimal_digits(s),
    ensures
        decimal_value(s.subrange(0, i)) <= decimal_value(s),
    decreases s.len() - i,
{
    if i < s.len() {
        lemma_decimal_prefix(s, i + 1);
        assert(s.subrange(0, i + 1).drop_last() =~= s.subrange(0, i));
    } else {
        assert(s.subrange(0, i) =~= s);
    }
}

/// The value of a run of decimal digits, negated if `negative`, as
/// `spec_digits_i64` says.
pub(crate) fn digits_value(d: &String, negative: bool) -> (r: Option<i64>)
    ensures
        r == spec_digits_i64(d@, negative),
{
    let n = d.as_str().unicode_len();
    if n == 0 {
        return None;
    }
    let mut acc: u128 = 0;
    let mut i: usize = 0;
    while i < n
        invariant
            n == d@.len(),
            i <= n,
            acc == decimal_value(d@.subrange(0, i as int)),
            acc <= 9223372036854775808,
            forall|k: int| 0 <= k < i ==> '0' <= #[trigger] d@[k] && d@[k] <= '9',
        decreases n - i,
    {
        let c = d.as_str().get_char(i);
        if c < '0' || c > '9' {
            return None;
        }
        assert(d@.subrange(0, i + 1).drop_last() =~= d@.subrange(0, i as int));
        acc = acc * 10 + (c as u32 - '0' as u32) as u128;
        if acc > 9223372036854775808 {
            proof {
                if all_decimal_digits(d@) {
                    lemma_decimal_prefix(d@, i + 1);
                }
            }
            return None;
        }
        i = i + 1;
    }
    assert(d@.subrange(0, n as int) =~= d@);
    if negative {
        Some((-(acc as i128)) as i64)
    } else if acc == 9223372036854775808 {
        None
    } else {
        Some(acc as i64)
    }
}

/// The value literal at `pos`, and the position after it. Object keys may be
/// names or strings.
pub open spec fn spec_parse_value(t: Seq<VToken>, pos: int) -> Result<(VValue, int), ()>
    decreases t.len() - pos, 0int,
{
    if pos < 0 || pos >= t.len() {
        Err(())
    } else {
        match t[pos] {
            VToken::Var(n) => Ok((VValue::Variable(n), pos + 1)),
            VToken::Number(d) => match spec_digits_i64(d, false) {
                Some(v) => Ok((VValue::Int(v), pos + 1)),
                None => Err(()),
            },
            VToken::Str(s) => Ok((VValue::Str(s), pos + 1)),
            VToken::Name(s) => if s == seq!['t', 'r', 'u', 'e'] {
                Ok((VValue::Boolean(true), pos + 1))
            } else if s == seq!['f', 'a', 'l', 's', 'e'] {
                Ok((VValue::Boolean(false), pos + 1))
            } else if s == seq!['n', 'u', 'l', 'l'] {
                Ok((VValue::Null, pos + 1))
            } else {
                Ok((VValue::Enum(s), pos + 1))
            },
            VToken::Sym(c) => if c == '-' {
                if pos + 1 < t.len() && t[pos + 1] is Number {
                    match spec_digits_i64(t[pos + 1]->Number_0, true) {
                        Some(v) => Ok((VValue::Int(v), pos + 2)),
                        None => Err(()),
                    }
                } else {
                    Err(())
                }
            } else if c == '[' {
                spec_list_items(t, pos + 1, Seq::empty())
            } else if c == '{' {
                spec_object_entries(t, pos + 1, Seq::empty())
            } else {
                Err(())
            },
            _ => Err(()),
        }
    }
}

/// The items of a list literal from `p` to its `]`, after `acc`.
pub open spec fn spec_list_items(t: Seq<VToken>, p: int, acc: Seq<VValue>) -> Result<(VValue, int), ()>
    decreases t.len() - p, 1int,
{
    if spec_sym_at(t, p, ']') {
        Ok((VValue::List(acc), p + 1))
    } else if p < 0 || p >= t.len() {
        Err(())
    } else {
        match spec_parse_value(t, p) {
            Ok((v, next)) => if next <= p || next > t.len() {
                Err(())
            } else {
                spec_list_items(t, next, acc.push(v))
            },
            Err(_) => Err(()),
        }
    }
}

/// The entries `key: value` of an object literal from `p` to its `}`, after
/// `acc`.
pub open spec fn spec_object_entries(t: Seq<VToken>, p: int, acc: Seq<(Seq<char>, VValue)>) -> Result<
    (VValue, int),
    (),
>
    decreases t.len() - p, 1int,
{
    if spec_sym_at(t, p, '}') {
        Ok((VValue::Object(acc), p + 1))
    } else if p < 0 || p + 1 >= t.len() {
        Err(())
    } else if !(t[p] is Name || t[p] is Str) || !spec_sym_at(t, p + 1, ':') {
        Err(())
    } else {
        let key = if t[p] is Name { t[p]->Name_0 } else { t[p]->Str_0 };
        match spec_parse_value(t, p + 2) {
            Ok((v, next)) => if next <= p || next > t.len() {
                Err(())
            } else {
                spec_object_entries(t, next, acc.push((key, v)))
            },
            Err(_) => Err(()),
        }
    }
}

/// Parses a value literal at `pos`, as `spec_parse_value` says.
pub(crate) fn parse_value(toks: &Vec<Token>, pos: usize) -> (r: Result<(Value, usize), ()>)
    ensures
        advanced(r, pos, toks@.len()),
        match r {
            Ok((v, next)) => spec_parse_value(tokens_view(toks@), pos as int) == Ok::<(VValue, int), ()>(
                (vval(v), next as int),
            ),
            Err(_) => spec_parse_value(tokens_view(toks@), pos as int) is Err,
        },
    decreases toks@.len() - pos,
{
    let n = toks.len();
    let ghost t = tokens_view(toks@);
    if pos >= n {
        return Err(());
    }
    proof {
        reveal_strlit("true");
        reveal_strlit("false");
        reveal_strlit("null");
        assert("true"@ =~= seq!['t', 'r', 'u', 'e']);
        assert("false"@ =~= seq!['f', 'a', 'l', 's', 'e']);
        assert("null"@ =~= seq!['n', 'u', 'l', 'l']);
    }
    match &toks[pos] {
        Token::Var(v) => Ok((Value::Variable(v.clone()), pos + 1)),
        Token::Number(d) => match digits_value(d, false) {
            Some(v) => Ok((Value::Int(v), pos + 1)),
            None => Err(()),
        },
        Token::Str(s) => Ok((Value::Str(s.clone()), pos + 1)),
        Token::Name(s) => {
            if text_is(s, "true") {
                Ok((Value::Boolean(true), pos + 1))
            } else if text_is(s, "false") {
                Ok((Value::Boolean(false), pos + 1))
            } else if text_is(s, "null") {
                Ok((Value::Null, pos + 1))
            } else {
                Ok((Value::Enum(s.clone()), pos + 1))
            }
        },
        Token::Sym(c) => {
            if *c == '-' {
                if pos + 1 < n {
                    match &toks[pos + 1] {
                        Token::Number(d) => match digits_value(d, true) {
                            Some(v) => Ok((Value::Int(v), pos + 2)),
                            None => Err(()),
                        },
                        _ => Err(()),
                    }
                } else {
                    Err(())
                }
            } else if *c == '[' {
                let mut items: Vec<Value> = Vec::new();
                let mut p = pos + 1;
                proof {
                    assert(vvals_from(items@, 0) =~= Seq::<VValue>::empty());
                }
                while !sym_at(toks, p, ']')
                    invariant
                        pos < p <= toks@.len(),
                        n == toks@.len(),
                        t == tokens_view(toks@),
                        spec_parse_value(t, pos as int) == spec_list_items(t, p as int, vvals_from(items@, 0)),
                    decreases toks@.len() - p,
                {
                    if p >= n {
                        return Err(());
                    }
                    let (v, next) = parse_value(toks, p)?;
                    proof {
                        lemma_vvals_push(items@, v, 0);
                        assert(vvals_from(items@, 0) + seq![vval(v)] =~= vvals_from(items@, 0).push(vval(v)));
                    }
                    items.push(v);
                    p = next;
                }
                Ok((Value::List(items), p + 1))
            } else if *c == '{' {
                let mut entries: Vec<(String, Value)> = Vec::new();
                let mut p = pos + 1;
                proof {
                    assert(ventries_from(entries@, 0) =~= Seq::<(Seq<char>, VValue)>::empty());
                }
                while !sym_at(toks, p, '}')
                    invariant
                        pos < p <= toks@.len(),
                        n == toks@.len(),
                        t == tokens_view(toks@),
                        spec_parse_value(t, pos as int) == spec_object_entries(
                            t,
                            p as int,
                            ventries_from(entries@, 0),
                        ),
                    decreases toks@.len() - p,
                {
                    if p >= n || p + 1 >= n {
                        return Err(());
                    }
                    let key = match &toks[p] {
                        Token::Name(k) => k.clone(),
                        Token::Str(k) => k.clone(),
                        _ => {
                            return Err(());
                        },
                    };
                    if !sym_at(toks, p + 1, ':') {
                        return Err(());
                    }
                    let (v, next) = parse_value(toks, p + 2)?;
                    proof {
                        lemma_ventries_push(entries@, (key, v), 0);
                        assert(ventries_from(entries@, 0) + seq![(key@, vval(v))] =~= ventries_from(entries@, 0).push(
                            (key@, vval(v)),
                        ));
                    }
                    entries.push((key, v));
                    p = next;
                }
                Ok((Value::Object(entries), p + 1))
            } else {
                Err(())
            }
        },
        _ => Err(()),
    }
}

/// The arguments `name: value` from `p` to their `)`, after `acc`.
pub open spec fn spec_args(t: Seq<VToken>, p: int, acc: Seq<(Seq<char>, VValue)>) -> Result<
    (Seq<(Seq<char>, VValue)>, int),
    (),
>
    decreases t.len() - p,
{
    if spec_sym_at(t, p, ')') {
        Ok((acc, p + 1))
    } else if p < 0 || p + 1 >= t.len() || !(t[p] is Name) || !spec_sym_at(t, p + 1, ':') {
        Err(())
    } else {
        match spec_parse_value(t, p + 2) {
            Ok((v, next)) => if next <= p || next > t.len() {
                Err(())
            } else {
                spec_args(t, next, acc.push((t[p]->Name_0, v)))
            },
            Err(_) => Err(()),
        }
    }
}

/// A field at `p`: its name, optional arguments `( ... )` and optional
/// selection set.
pub open spec fn spec_parse_field(t: Seq<VToken>, p: int) -> Result<(VSelection, int), ()>
    decreases t.len() - p, 0int,
{
    if p < 0 || p >= t.len() || !(t[p] is Name) {
        Err(())
    } else {
        let name = t[p]->Name_0;
        let args = if spec_sym_at(t, p + 1, '(') {
            spec_args(t, p + 2, Seq::empty())
        } else {
            Ok((Seq::empty(), p + 1))
        };
        match args {
            Err(_) => Err(()),
            Ok((a, q)) => if q <= p || q > t.len() {
                Err(())
            } else if spec_sym_at(t, q, '{') {
                match spec_parse_selection_set(t, q) {
                    Ok((sub, q2)) => Ok((VSelection::Field(name, a, sub), q2)),
                    Err(_) => Err(()),
                }
            } else {
                Ok((VSelection::Field(name, a, Seq::empty()), q))
            },
        }
    }
}

/// A selection set `{ field ... }` at `pos`.
pub open spec fn spec_parse_selection_set(t: Seq<VToken>, pos: int) -> Result<(Seq<VSelection>, int), ()>
    decreases t.len() - pos, 1int,
{
    if !spec_sym_at(t, pos, '{') {
        Err(())
    } else {
        spec_selection_items(t, pos + 1, Seq::empty())
    }
}

/// The fields from `p` to the closing `}`, after `acc`.
pub open spec fn spec_selection_items(t: Seq<VToken>, p: int, acc: Seq<VSelection>) -> Result<
    (Seq<VSelection>, int),
    (),
>
    decreases t.len() - p, 2int,
{
    if spec_sym_at(t, p, '}') {
        Ok((acc, p + 1))
    } else if p < 0 || p >= t.len() {
        Err(())
    } else {
        match spec_parse_field(t, p) {
            Ok((f, next)) => if next <= p || next > t.len() {
                Err(())
            } else {
                spec_selection_items(t, next, acc.push(f))
            },
            Err(_) => Err(()),
        }
    }
}

fn parse_args(toks: &Vec<Token>, pos: usize) -> (r: Result<(Vec<(String, Value)>, usize), ()>)
    requires
        pos <= toks@.len(),
    ensures
        advanced(r, pos, toks@.len()),
        match r {
            Ok((a, next)) => spec_args(tokens_view(toks@), pos as int, Seq::empty()) == Ok::<
                (Seq<(Seq<char>, VValue)>, int),
                (),
            >((ventries_from(a@, 0), next as int)),
            Err(_) => spec_args(tokens_view(toks@), pos as int, Seq::empty()) is Err,
        },
{
    let n = toks.len();
    let ghost t = tokens_view(toks@);
    let mut arguments: Vec<(String, Value)> = Vec::new();
    let mut p = pos;
    proof {
        assert(ventries_from(arguments@, 0) =~= Seq::<(Seq<char>, VValue)>::empty());
    }
    while !sym_at(toks, p, ')')
        invariant
            pos <= p <= toks@.len(),
            n == toks@.len(),
            t == tokens_view(toks@),
            spec_args(t, pos as int, Seq::empty()) == spec_args(t, p as int, ventries_from(arguments@, 0)),
        decreases toks@.len() - p,
    {
        if p >= n || p + 1 >= n {
            return Err(());
        }
        let key = match &toks[p] {
            Token::Name(k) => k.clone(),
            _ => {
                return Err(());
            },
        };
        if !sym_at(toks, p + 1, ':') {
            return Err(());
        }
        let (v, next) = parse_value(toks, p + 2)?;
        proof {
            lemma_ventries_push(arguments@, (key, v), 0);
            assert(ventries_from(arguments@, 0) + seq![(key@, vval(v))] =~= ventries_from(arguments@, 0).push(
                (key@, vval(v)),
            ));
        }
        arguments.push((key, v));
        p = next;
    }
    Ok((arguments, p + 1))
}

fn parse_field(toks: &Vec<Token>, pos: usize) -> (r: Result<(Selection, usize), ()>)
    ensures
        advanced(r, pos, toks@.len()),
        match r {
            Ok((f, next)) => spec_parse_field(tokens_view(toks@), pos as int) == Ok::<(VSelection, int), ()>(
                (vsel(f), next as int),
            ),
            Err(_) => spec_parse_field(tokens_view(toks@), pos as int) is Err,
        },
    decreases toks@.len() - pos, 0int,
{
    let n = toks.len();
    if pos >= n {
        return Err(());
    }
    let name = match &toks[pos] {
        Token::Name(x) => x.clone(),
        _ => {
            return Err(());
        },
    };
    let mut p = pos + 1;
    let mut arguments: Vec<(String, Value)> = Vec::new();
    proof {
        assert(ventries_from(arguments@, 0) =~= Seq::<(Seq<char>, VValue)>::empty());
    }
    if sym_at(toks, p, '(') {
        let (a, next) = parse_args(toks, p + 1)?;
        arguments = a;
        p = next;
    }
    let mut selection_set: Vec<Selection> = Vec::new();
    proof {
        assert(vsels_from(selection_set@, 0) =~= Seq::<VSelection>::empty());
    }
    if sym_at(toks, p, '{') {
        let (sub, next) = parse_selection_set(toks, p)?;
        selection_set = sub;
        p = next;
    }
    Ok((Selection::Field(Field { name, arguments, selection_set }), p))
}

/// Parses a selection set `{ ... }` at `pos`, as `spec_parse_selection_set`
/// says.
pub(crate) fn parse_selection_set(toks: &Vec<Token>, pos: usize) -> (r: Result<(Vec<Selection>, usize), ()>)
    ensures
        advanced(r, pos, toks@.len()),
        match r {
            Ok((s, next)) => spec_parse_selection_set(tokens_view(toks@), pos as int) == Ok::<
                (Seq<VSelection>, int),
                (),
            >((vsels_from(s@, 0), next as int)),
            Err(_) => spec_parse_selection_set(tokens_view(toks@), pos as int) is Err,
        },
    decreases toks@.len() - pos, 1int,
{
    let n = toks.len();
    let ghost t = tokens_view(toks@);
    if !sym_at(toks, pos, '{') {
        return Err(());
    }
    let mut items: Vec<Selection> = Vec::new();
    let mut p = pos + 1;
    proof {
        assert(vsels_from(items@, 0) =~= Seq::<VSelection>::empty());
    }
    while !sym_at(toks, p, '}')
        invariant
            pos < p <= toks@.len(),
            n == toks@.len(),
            t == tokens_view(toks@),
            spec_parse_selection_set(t, pos as int) == spec_selection_items(t, p as int, vsels_from(items@, 0)),
        decreases toks@.len() - p,
    {
        if p >= n {
            return Err(());
        }
        let (f, next) = parse_field(toks, p)?;
        proof {
            lemma_vsels_push(items@, f, 0);
            assert(vsels_from(items@, 0) + seq![vsel(f)] =~= vsels_from(items@, 0).push(vsel(f)));
        }
        items.push(f);
        p = next;
    }
    Ok((items, p + 1))
}

/// An expression as the grammar sees it.
pub enum VExpr {
    Number(Seq<char>),
    Bool(bool),
    Str(Seq<char>),
    Var(Seq<char>),
    Neg(Box<VExpr>),
    Not(Box<VExpr>),
    Binary(BinOp, Box<VExpr>, Box<VExpr>),
}

pub open spec fn vexpr(e: Expr) -> VExpr
    decreases e,
{
    match e {
        Expr::Number(d) => VExpr::Number(d@),
        Expr::Bool(b) => VExpr::Bool(b),
        Expr::Str(s) => VExpr::Str(s@),
        Expr::Var(s) => VExpr::Var(s@),
        Expr::Neg(x) => VExpr::Neg(Box::new(vexpr(*x))),
        Expr::Not(x) => VExpr::Not(Box::new(vexpr(*x))),
        Expr::Binary(op, l, r) => VExpr::Binary(op, Box::new(vexpr(*l)), Box::new(vexpr(*r))),
    }
}

/// The binary operator at `pos` of precedence `level` (0: `||`, 1: `&&`,
/// 2: comparisons, 3: `+ -`, 4: `* /`), if there is one.
pub open spec fn spec_op_at(t: Seq<VToken>, pos: int, level: int) -> Option<BinOp> {
    if pos < 0 || pos >= t.len() {
        None
    } else {
        match t[pos] {
            VToken::Sym2(a, b) => if level == 0 && a == '|' && b == '|' {
                Some(BinOp::Or)
            } else if level == 1 && a == '&' && b == '&' {
                Some(BinOp::And)
            } else if level == 2 && a == '=' && b == '=' {
                Some(BinOp::Eq)
            } else if level == 2 && a == '!' && b == '=' {
                Some(BinOp::Ne)
            } else if level == 2 && a == '<' && b == '=' {
                Some(BinOp::Le)
            } else if level == 2 && a == '>' && b == '=' {
                Some(BinOp::Ge)
            } else {
                None
            },
            VToken::Sym(c) => if level == 2 && c == '<' {
                Some(BinOp::Lt)
            } else if level == 2 && c == '>' {
                Some(BinOp::Gt)
            } else if level == 3 && c == '+' {
                Some(BinOp::Add)
            } else if level == 3 && c == '-' {
                Some(BinOp::Sub)
            } else if level == 4 && c == '*' {
                Some(BinOp::Mul)
            } else if level == 4 && c == '/' {
                Some(BinOp::Div)
            } else {
                None
            },
            _ => None,
        }
    }
}

/// A negation (`-`, `!`), a constant, a `$` reference or a parenthesized
/// expression at `pos`.
pub open spec fn spec_parse_unary(t: Seq<VToken>, pos: int) -> Result<(VExpr, int), ()>
    decreases t.len() - pos, 0int,
{
    if pos < 0 || pos >= t.len() {
        Err(())
    } else {
        match t[pos] {
            VToken::Number(d) => Ok((VExpr::Number(d), pos + 1)),
            VToken::Var(v) => Ok((VExpr::Var(v), pos + 1)),
            VToken::Str(v) => Ok((VExpr::Str(v), pos + 1)),
            VToken::Name(v) => if v == seq!['t', 'r', 'u', 'e'] {
                Ok((VExpr::Bool(true), pos + 1))
            } else if v == seq!['f', 'a', 'l', 's', 'e'] {
                Ok((VExpr::Bool(false), pos + 1))
            } else {
                Err(())
            },
            VToken::Sym(c) => if c == '-' || c == '!' {
                match spec_parse_unary(t, pos + 1) {
                    Ok((e, next)) => Ok((
                        if c == '-' { VExpr::Neg(Box::new(e)) } else { VExpr::Not(Box::new(e)) },
                        next,
                    )),
                    Err(_) => Err(()),
                }
            } else if c == '(' {
                match spec_parse_expr(t, pos + 1, 0) {
                    Ok((e, next)) => if spec_sym_at(t, next, ')') { Ok((e, next + 1)) } else { Err(()) },
                    Err(_) => Err(()),
                }
            } else {
                Err(())
            },
            _ => Err(()),
        }
    }
}

/// An expression at `pos` whose binary operators have precedence `level` or
/// higher. Operators of one level group to the left; comparisons do not
/// chain.
pub open spec fn spec_parse_expr(t: Seq<VToken>, pos: int, level: int) -> Result<(VExpr, int), ()>
    decreases t.len() - pos, (if level >= 5 { 1int } else { 6 - level }),
{
    if level >= 5 {
        spec_parse_unary(t, pos)
    } else {
        match spec_parse_expr(t, pos, level + 1) {
            Ok((first, next)) => if next <= pos || next > t.len() {
                Err(())
            } else {
                spec_expr_rest(t, first, next, level)
            },
            Err(_) => Err(()),
        }
    }
}

/// Continues an expression of precedence `level` whose left side `lhs` ends
/// at `p`.
pub open spec fn spec_expr_rest(t: Seq<VToken>, lhs: VExpr, p: int, level: int) -> Result<(VExpr, int), ()>
    decreases t.len() - p, 0int,
{
    match spec_op_at(t, p, level) {
        None => Ok((lhs, p)),
        Some(op) => match spec_parse_expr(t, p + 1, level + 1) {
            Ok((rhs, after)) => if after <= p || after > t.len() {
                Err(())
            } else if level == 2 {
                Ok((VExpr::Binary(op, Box::new(lhs), Box::new(rhs)), after))
            } else {
                spec_expr_rest(t, VExpr::Binary(op, Box::new(lhs), Box::new(rhs)), after, level)
            },
            Err(_) => Err(()),
        },
    }
}

fn op_at(toks: &Vec<Token>, pos: usize, level: u8) -> (r: Option<BinOp>)
    ensures
        r == spec_op_at(tokens_view(toks@), pos as int, level as int),
        r is Some ==> pos < toks@.len(),
{
    if pos >= toks.len() {
        return None;
    }
    match &toks[pos] {
        Token::Sym2(a, b) => {
            if level == 0 && *a == '|' && *b == '|' {
                Some(BinOp::Or)
            } else if level == 1 && *a == '&' && *b == '&' {
                Some(BinOp::And)
            } else if level == 2 && *a == '=' && *b == '=' {
                Some(BinOp::Eq)
            } else if level == 2 && *a == '!' && *b == '=' {
                Some(BinOp::Ne)
            } else if level == 2 && *a == '<' && *b == '=' {
                Some(BinOp::Le)
            } else if level == 2 && *a == '>' && *b == '=' {
                Some(BinOp::Ge)
            } else {
                None
            }
        },
        Token::Sym(c) => {
            if level == 2 && *c == '<' {
                Some(BinOp::Lt)
            } else if level == 2 && *c == '>' {
                Some(BinOp::Gt)
            } else if level == 3 && *c == '+' {
                Some(BinOp::Add)
            } else if level == 3 && *c == '-' {
                Some(BinOp::Sub)
            } else if level == 4 && *c == '*' {
                Some(BinOp::Mul)
            } else if level == 4 && *c == '/' {
                Some(BinOp::Div)
            } else {
                None
            }
        },
        _ => None,
    }
}

/// Parses an expression at `pos` of precedence `level` or higher, as
/// `spec_parse_expr` says.
pub(crate) fn parse_expr(toks: &Vec<Token>, pos: usize, level: u8) -> (r: Result<(Expr, usize), ()>)
    requires
        level <= 5,
    ensures
        advanced(r, pos, toks@.len()),
        match r {
            Ok((e, next)) => spec_parse_expr(tokens_view(toks@), pos as int, level as int) == Ok::<(VExpr, int), ()>(
                (vexpr(e), next as int),
            ),
            Err(_) => spec_parse_expr(tokens_view(toks@), pos as int, level as int) is Err,
        },
    decreases toks@.len() - pos, 6 - level,
{
    let n = toks.len();
    let ghost t = tokens_view(toks@);
    if level == 5 {
        return parse_unary(toks, pos);
    }
    let (first, next) = parse_expr(toks, pos, level + 1)?;
    let mut lhs = first;
    let mut p = next;
    loop
        invariant
            pos < p <= toks@.len(),
            n == toks@.len(),
            t == tokens_view(toks@),
            level < 5,
            spec_parse_expr(t, pos as int, level as int) == spec_expr_rest(t, vexpr(lhs), p as int, level as int),
        decreases toks@.len() - p,
    {
        match op_at(toks, p, level) {
            Some(op) => {
                let (rhs, after) = parse_expr(toks, p + 1, level + 1)?;
                lhs = Expr::Binary(op, Box::new(lhs), Box::new(rhs));
                p = after;
                if level == 2 {
                    return Ok((lhs, p));
                }
            },
            None => {
                return Ok((lhs, p));
            },
        }
    }
}

/// Parses a negation, a constant, a `$` reference or a parenthesized
/// expression at `pos`, as `spec_parse_unary` says.
fn parse_unary(toks: &Vec<Token>, pos: usize) -> (r: Result<(Expr, usize), ()>)
    ensures
        advanced(r, pos, toks@.len()),
        match r {
            Ok((e, next)) => spec_parse_unary(tokens_view(toks@), pos as int) == Ok::<(VExpr, int), ()>(
                (vexpr(e), next as int),
            ),
            Err(_) => spec_parse_unary(tokens_view(toks@), pos as int) is Err,
        },
    decreases toks@.len() - pos, 0int,
{
    let n = toks.len();
    if pos >= n {
        return Err(());
    }
    proof {
        reveal_strlit("true");
        reveal_strlit("false");
        assert("true"@ =~= seq!['t', 'r', 'u', 'e']);
        assert("false"@ =~= seq!['f', 'a', 'l', 's', 'e']);
    }
    match &toks[pos] {
        Token::Number(d) => Ok((Expr::Number(d.clone()), pos + 1)),
        Token::Var(v) => Ok((Expr::Var(v.clone()), pos + 1)),
        Token::Str(v) => Ok((Expr::Str(v.clone()), pos + 1)),
        Token::Name(v) => {
            if text_is(v, "true") {
                Ok((Expr::Bool(true), pos + 1))
            } else if text_is(v, "false") {
                Ok((Expr::Bool(false), pos + 1))
            } else {
                Err(())
            }
        },
        Token::Sym(c) => {
            if *c == '-' {
                let (e, next) = parse_unary(toks, pos + 1)?;
                Ok((Expr::Neg(Box::new(e)), next))
            } else if *c == '!' {
                let (e, next) = parse_unary(toks, pos + 1)?;
                Ok((Expr::Not(Box::new(e)), next))
            } else if *c == '(' {
                let (e, next) = parse_expr(toks, pos + 1, 0)?;
                if !sym_at(toks, next, ')') {
                    return Err(());
                }
                Ok((e, next + 1))
            } else {
                Err(())
            }
        },
        _ => Err(()),
    }
}

} // verus!
