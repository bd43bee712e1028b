use vstd::prelude::*;
use crate::ast::{Captured, Value};
use crate::bignum::{all_decimal_digits, big_from_decimal, big_from_i64, decimal_value};
use crate::captures::{capture_of, lookup_entry, variable_of, CaptureSeq, Captures};
use crate::number::{
    compare, num_add, num_div, num_mul, num_neg, num_sub, number_from_big, spec_add, spec_cmp, spec_div,
    spec_mul, spec_neg, spec_sub, Num, Number,
};
use crate::parser::{text_is, BinOp, Expr};

verus! {

/// The mathematical value of an expression.
pub enum Val {
    Num(Num),
    Bool(bool),
    Str(Seq<char>),
    Null,
}

/// Boolean coercion, as JavaScript does it: `false`, zero, not a number, the
/// empty string and null are false; every other value is true.
pub open spec fn truthy(v: Val) -> bool {
    match v {
        Val::Bool(b) => b,
        Val::Num(Num::Fin(n, _)) => n != 0,
        Val::Num(Num::NaN) => false,
        Val::Num(_) => true,
        Val::Str(s) => s.len() > 0,
        Val::Null => false,
    }
}

/// What a global stands for in an expression, if it can stand in one.
pub open spec fn global_val(v: Value) -> Option<Val> {
    match v {
        Value::Int(i) => Some(Val::Num(Num::Fin(i as int, 1))),
        Value::Boolean(b) => Some(Val::Bool(b)),
        Value::Str(s) => Some(Val::Str(s@)),
        Value::Null => Some(Val::Null),
        _ => None,
    }
}

/// A value of the name `BAN` that forbids the evaluation: `true`, one, or a
/// non-empty string.
pub open spec fn bans(v: Val) -> bool {
    match v {
        Val::Bool(b) => b,
        Val::Num(n) => spec_cmp(n, Num::Fin(1, 1)) == 0,
        Val::Str(s) => s.len() > 0,
        Val::Null => false,
    }
}

/// The value of `$name`: a capture first, then a global. An unknown name, a
/// global that no expression can use, or `BAN` bound to a value that `bans`,
/// is an error.
pub open spec fn spec_resolve(name: Seq<char>, caps: CaptureSeq, globals: Seq<(String, Value)>) -> Result<Val, ()> {
    match spec_lookup(name, caps, globals) {
        Some(v) => if name == seq!['B', 'A', 'N'] && bans(v) {
            Err(())
        } else {
            Ok(v)
        },
        None => Err(()),
    }
}

/// The value bound to `name`: a capture first, then a global.
pub open spec fn spec_lookup(name: Seq<char>, caps: CaptureSeq, globals: Seq<(String, Value)>) -> Option<Val> {
    match capture_of(caps, name) {
        Some(Captured::Int(i)) => Some(Val::Num(Num::Fin(i as int, 1))),
        Some(Captured::Bool(b)) => Some(Val::Bool(b)),
        None => match variable_of(globals, name) {
            Some(g) => global_val(g),
            None => None,
        },
    }
}

/// Equality across values: numbers by value, booleans and strings by
/// equality; values of different kinds are unequal.
pub open spec fn spec_equal(a: Val, b: Val) -> bool {
    match (a, b) {
        (Val::Num(x), Val::Num(y)) => spec_cmp(x, y) == 0,
        (Val::Bool(x), Val::Bool(y)) => x == y,
        (Val::Str(x), Val::Str(y)) => x == y,
        (Val::Null, Val::Null) => true,
        _ => false,
    }
}

pub open spec fn spec_arith(op: BinOp, a: Num, b: Num) -> Num {
    match op {
        BinOp::Add => spec_add(a, b),
        BinOp::Sub => spec_sub(a, b),
        BinOp::Mul => spec_mul(a, b),
        _ => spec_div(a, b),
    }
}

pub open spec fn spec_order(op: BinOp, c: int) -> bool {
    match op {
        BinOp::Lt => c == -1,
        BinOp::Le => c == -1 || c == 0,
        BinOp::Gt => c == 1,
        _ => c == 1 || c == 0,
    }
}

/// The value of expression `e` with captures `caps` and globals `globals`.
/// Arithmetic and ordering need numbers; `&&` and `||` coerce to booleans
/// and do not evaluate their right side when the left decides.
pub open spec fn spec_eval(e: Expr, caps: CaptureSeq, globals: Seq<(String, Value)>) -> Result<Val, ()>
    decreases e,
{
    match e {
        Expr::Number(d) => if d@.len() > 0 && all_decimal_digits(d@) {
            Ok(Val::Num(Num::Fin(decimal_value(d@) as int, 1)))
        } else {
            Err(())
        },
        Expr::Bool(b) => Ok(Val::Bool(b)),
        Expr::Str(s) => Ok(Val::Str(s@)),
        Expr::Var(name) => spec_resolve(name@, caps, globals),
        Expr::Neg(x) => match spec_eval(*x, caps, globals) {
            Ok(Val::Num(n)) => Ok(Val::Num(spec_neg(n))),
            _ => Err(()),
        },
        Expr::Not(x) => match spec_eval(*x, caps, globals) {
            Ok(v) => Ok(Val::Bool(!truthy(v))),
            Err(_) => Err(()),
        },
        Expr::Binary(op, l, r) => match spec_eval(*l, caps, globals) {
            Err(_) => Err(()),
            Ok(lv) => if op is And && !truthy(lv) {
                Ok(Val::Bool(false))
            } else if op is Or && truthy(lv) {
                Ok(Val::Bool(true))
            } else {
                match spec_eval(*r, caps, globals) {
                    Err(_) => Err(()),
                    Ok(rv) => match op {
                        BinOp::And | BinOp::Or => Ok(Val::Bool(truthy(rv))),
                        BinOp::Eq => Ok(Val::Bool(spec_equal(lv, rv))),
                        BinOp::Ne => Ok(Val::Bool(!spec_equal(lv, rv))),
                        BinOp::Add | BinOp::Sub | BinOp::Mul | BinOp::Div => match (lv, rv) {
                            (Val::Num(a), Val::Num(b)) => Ok(Val::Num(spec_arith(op, a, b))),
                            _ => Err(()),
                        },
                        _ => match (lv, rv) {
                            (Val::Num(a), Val::Num(b)) => Ok(Val::Bool(spec_order(op, spec_cmp(a, b)))),
                            _ => Err(()),
                        },
                    },
                }
            },
        },
    }
}

/// A value that an expression evaluates to.
#[derive(Debug)]
pub enum Evaluated {
    Num(Number),
    Bool(bool),
    Str(String),
    Null,
}

impl Evaluated {
    pub open spec fn val(&self) -> Val {
        match self {
            Evaluated::Num(n) => Val::Num(n.num()),
            Evaluated::Bool(b) => Val::Bool(*b),
            Evaluated::Str(s) => Val::Str(s@),
            Evaluated::Null => Val::Null,
        }
    }

    pub open spec fn wf(&self) -> bool {
        self matches Evaluated::Num(n) ==> n.wf()
    }
}

/// Boolean coercion of `v`.
pub fn is_truthy(v: &Evaluated) -> (r: bool)
    requires
        v.wf(),
    ensures
        r == truthy(v.val()),
{
    match v {
        Evaluated::Bool(b) => *b,
        Evaluated::Num(Number::Finite(n, _)) => !crate::bignum::big_is_zero(n),
        Evaluated::Num(Number::NaN) => false,
        Evaluated::Num(_) => true,
        Evaluated::Str(s) => s.as_str().unicode_len() > 0,
        Evaluated::Null => false,
    }
}

fn equal(a: &Evaluated, b: &Evaluated) -> (r: bool)
    requires
        a.wf(),
        b.wf(),
    ensures
        r == spec_equal(a.val(), b.val()),
{
    match (a, b) {
        (Evaluated::Num(x), Evaluated::Num(y)) => compare(x, y) == 0,
        (Evaluated::Bool(x), Evaluated::Bool(y)) => *x == *y,
        (Evaluated::Str(x), Evaluated::Str(y)) => *x == *y,
        (Evaluated::Null, Evaluated::Null) => true,
        _ => false,
    }
}

fn decimal_digits(d: &String) -> (r: bool)
    ensures
        r == (d@.len() > 0 && all_decimal_digits(d@)),
{
    let n = d.as_str().unicode_len();
    let mut i: usize = 0;
    while i < n
        invariant
            n == d@.len(),
            i <= n,
            forall|k: int| 0 <= k < i ==> '0' <= #[trigger] d@[k] && d@[k] <= '9',
        decreases n - i,
    {
        let c = d.as_str().get_char(i);
        if c < '0' || c > '9' {
            return false;
        }
        i = i + 1;
    }
    n > 0
}

fn from_global(v: &Value) -> (r: Option<Evaluated>)
    ensures
        match r {
            Some(e) => e.wf() && global_val(*v) == Some(e.val()),
            None => global_val(*v) is None,
        },
{
    match v {
        Value::Int(i) => Some(Evaluated::Num(number_from_big(big_from_i64(*i)))),
        Value::Boolean(b) => Some(Evaluated::Bool(*b)),
        Value::Str(s) => Some(Evaluated::Str(s.clone())),
        Value::Null => Some(Evaluated::Null),
        _ => None,
    }
}

fn lookup(name: &String, caps: &Captures, globals: &Vec<(String, Value)>) -> (r: Option<Evaluated>)
    ensures
        match r {
            Some(v) => v.wf() && spec_lookup(name@, caps@, globals@) == Some(v.val()),
            None => spec_lookup(name@, caps@, globals@) is None,
        },
{
    match caps.get(name) {
        Some(Captured::Int(i)) => Some(Evaluated::Num(number_from_big(big_from_i64(i)))),
        Some(Captured::Bool(b)) => Some(Evaluated::Bool(b)),
        None => match lookup_entry(globals, name) {
            Some(g) => from_global(g),
            None => None,
        },
    }
}

fn resolve(name: &String, caps: &Captures, globals: &Vec<(String, Value)>) -> (r: Result<Evaluated, ()>)
    ensures
        match r {
            Ok(v) => v.wf() && spec_resolve(name@, caps@, globals@) == Ok::<Val, ()>(v.val()),
            Err(_) => spec_resolve(name@, caps@, globals@) is Err,
        },
{
    match lookup(name, caps, globals) {
        Some(v) => {
            proof {
                reveal_strlit("BAN");
                assert("BAN"@ =~= seq!['B', 'A', 'N']);
            }
            if text_is(name, "BAN") {
                let banned = match &v {
                    Evaluated::Bool(b) => *b,
                    Evaluated::Num(n) => compare(n, &number_from_big(big_from_i64(1))) == 0,
                    Evaluated::Str(s) => s.as_str().unicode_len() > 0,
                    Evaluated::Null => false,
                };
                if banned {
                    return Err(());
                }
            }
            Ok(v)
        },
        None => Err(()),
    }
}

/// Evaluates `e` with captures `caps` and globals `globals`.
pub fn eval(e: &Expr, caps: &Captures, globals: &Vec<(String, Value)>) -> (r: Result<Evaluated, ()>)
    ensures
        match r {
            Ok(v) => v.wf() && spec_eval(*e, caps@, globals@) == Ok::<Val, ()>(v.val()),
            Err(_) => spec_eval(*e, caps@, globals@) is Err,
        },
    decreases e,
{
    match e {
        Expr::Number(d) => {
            if !decimal_digits(d) {
                return Err(());
            }
            match big_from_decimal(d.as_str()) {
                Some(n) => Ok(Evaluated::Num(number_from_big(n))),
                None => Err(()),
            }
        },
        Expr::Bool(b) => Ok(Evaluated::Bool(*b)),
        Expr::Str(s) => Ok(Evaluated::Str(s.clone())),
        Expr::Var(name) => resolve(name, caps, globals),
        Expr::Neg(x) => match eval(x, caps, globals)? {
            Evaluated::Num(n) => Ok(Evaluated::Num(num_neg(&n))),
            _ => Err(()),
        },
        Expr::Not(x) => {
            let v = eval(x, caps, globals)?;
            Ok(Evaluated::Bool(!is_truthy(&v)))
        },
        Expr::Binary(op, l, r) => {
            let lv = eval(l, caps, globals)?;
            match op {
                BinOp::And => {
                    if !is_truthy(&lv) {
                        return Ok(Evaluated::Bool(false));
                    }
                },
                BinOp::Or => {
                    if is_truthy(&lv) {
                        return Ok(Evaluated::Bool(true));
                    }
                },
                _ => {},
            }
            let rv = eval(r, caps, globals)?;
            match op {
                BinOp::And | BinOp::Or => Ok(Evaluated::Bool(is_truthy(&rv))),
                BinOp::Eq => Ok(Evaluated::Bool(equal(&lv, &rv))),
                BinOp::Ne => Ok(Evaluated::Bool(!equal(&lv, &rv))),
                BinOp::Add | BinOp::Sub | BinOp::Mul | BinOp::Div => match (&lv, &rv) {
                    (Evaluated::Num(a), Evaluated::Num(b)) => Ok(Evaluated::Num(match op {
                        BinOp::Add => num_add(a, b),
                        BinOp::Sub => num_sub(a, b),
                        BinOp::Mul => num_mul(a, b),
                        _ => num_div(a, b),
                    })),
                    _ => Err(()),
                },
                _ => match (&lv, &rv) {
                    (Evaluated::Num(a), Evaluated::Num(b)) => {
                        let c = compare(a, b);
                        Ok(Evaluated::Bool(match op {
                            BinOp::Lt => c == -1,
                            BinOp::Le => c == -1 || c == 0,
                            BinOp::Gt => c == 1,
                            _ => c == 1 || c == 0,
                        }))
                    },
                    _ => Err(()),
                },
            }
        },
    }
}

} // verus!
