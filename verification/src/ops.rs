//! Semantics of the operator instructions: pure functions of their operand
//! values that either produce a result value or a typed evaluation error.
//!
//! The spec functions define the outcome on the model exactly; the
//! executable evaluators are proved to return precisely that outcome.

use vstd::prelude::*;
use vstd::string::StringExecFns;
use crate::value::{Value, Mv, Tag, m, m_seq, m_pairs, m_pair, lemma_m_seq, lemma_m_pairs};

verus! {

/// The user-facing evaluation error taxonomy. Every error raised while an
/// instruction executes is attributed to a source span by the engine.
#[derive(Clone, Copy, PartialEq, Eq, Structural, Debug)]
pub enum EvalErrorKind {
    /// Operand types do not fit the operation.
    TypeMismatch,
    /// Integer division by zero.
    DivisionByZero,
    /// Operands of a kind that the machine does not compare.
    NotComparable,
    /// An integer operation left the representable range.
    Overflow,
    /// The callee of a `Call` is not callable.
    NotCallable,
    /// An argument bundle lacks a required parameter.
    MissingArgument,
    /// An argument bundle names no parameter of the callee.
    UnknownArgument,
    /// The operand of `Iter` cannot be iterated.
    NotIterable,
    /// The operand of `Spread` fits no construction context.
    Unspreadable,
    /// A destructured value does not match the pattern's shape.
    DestructureMismatch,
    /// A dictionary access or destructuring found no such key.
    MissingKey,
    /// An array index is out of bounds.
    IndexOutOfBounds,
    /// A field access on a value that has no fields.
    NoFields,
    /// A module could not be instantiated.
    ModuleLoadFailed,
    /// An include target could not be loaded.
    IncludeFailed,
    /// A loop exceeded the engine's iteration budget.
    TooManyIterations,
    /// The call nesting exceeded the engine's depth budget.
    TooDeeplyNested,
}

/// A binary operator instruction's operation.
#[derive(Clone, Copy, PartialEq, Eq, Structural, Debug)]
pub enum BinOp {
    Add,
    Sub,
    Mul,
    Div,
    Gt,
    Geq,
    Lt,
    Leq,
    Eq,
    Neq,
    In,
    NotIn,
    And,
    Or,
}

/// A unary operator instruction's operation.
#[derive(Clone, Copy, PartialEq, Eq, Structural, Debug)]
pub enum UnOp {
    Neg,
    Pos,
    Not,
}

/// Whether a model value is a scalar: one of the kinds the machine
/// compares for equality. Containers and callables are not comparable.
pub open spec fn is_scalar(a: Mv) -> bool {
    match a {
        Mv::Nothing => true,
        Mv::Auto => true,
        Mv::Bool(_) => true,
        Mv::Int(_) => true,
        Mv::Str(_) => true,
        Mv::Label(_) => true,
        _ => false,
    }
}

/// The result model of an executable evaluation.
pub open spec fn m_result(r: Result<Value, EvalErrorKind>) -> Result<Mv, EvalErrorKind> {
    match r {
        Ok(v) => Ok(m(v)),
        Err(k) => Err(k),
    }
}

/// Exact semantics of the binary operators on the model.
pub open spec fn spec_binary(op: BinOp, a: Mv, b: Mv) -> Result<Mv, EvalErrorKind> {
    match op {
        BinOp::Add => match (a, b) {
            (Mv::Int(x), Mv::Int(y)) => match x.checked_add(y) {
                Some(s) => Ok(Mv::Int(s)),
                None => Err(EvalErrorKind::Overflow),
            },
            (Mv::Str(x), Mv::Str(y)) => Ok(Mv::Str(x + y)),
            (Mv::Array(x), Mv::Array(y)) => Ok(Mv::Array(x + y)),
            (Mv::Elem(t1, c1), Mv::Elem(t2, c2)) => Ok(
                Mv::Elem(Tag::Joined, seq![Mv::Elem(t1, c1), Mv::Elem(t2, c2)]),
            ),
            _ => Err(EvalErrorKind::TypeMismatch),
        },
        BinOp::Sub => match (a, b) {
            (Mv::Int(x), Mv::Int(y)) => match x.checked_sub(y) {
                Some(s) => Ok(Mv::Int(s)),
                None => Err(EvalErrorKind::Overflow),
            },
            _ => Err(EvalErrorKind::TypeMismatch),
        },
        BinOp::Mul => match (a, b) {
            (Mv::Int(x), Mv::Int(y)) => match x.checked_mul(y) {
                Some(s) => Ok(Mv::Int(s)),
                None => Err(EvalErrorKind::Overflow),
            },
            _ => Err(EvalErrorKind::TypeMismatch),
        },
        BinOp::Div => match (a, b) {
            (Mv::Int(x), Mv::Int(y)) => if y == 0 {
                Err(EvalErrorKind::DivisionByZero)
            } else {
                match x.checked_div(y) {
                    Some(q) => Ok(Mv::Int(q)),
                    None => Err(EvalErrorKind::Overflow),
                }
            },
            _ => Err(EvalErrorKind::TypeMismatch),
        },
        BinOp::Gt => match (a, b) {
            (Mv::Int(x), Mv::Int(y)) => Ok(Mv::Bool(x > y)),
            _ => Err(EvalErrorKind::NotComparable),
        },
        BinOp::Geq => match (a, b) {
            (Mv::Int(x), Mv::Int(y)) => Ok(Mv::Bool(x >= y)),
            _ => Err(EvalErrorKind::NotComparable),
        },
        BinOp::Lt => match (a, b) {
            (Mv::Int(x), Mv::Int(y)) => Ok(Mv::Bool(x < y)),
            _ => Err(EvalErrorKind::NotComparable),
        },
        BinOp::Leq => match (a, b) {
            (Mv::Int(x), Mv::Int(y)) => Ok(Mv::Bool(x <= y)),
            _ => Err(EvalErrorKind::NotComparable),
        },
        BinOp::Eq => if is_scalar(a) && is_scalar(b) {
            Ok(Mv::Bool(a == b))
        } else {
            Err(EvalErrorKind::NotComparable)
        },
        BinOp::Neq => if is_scalar(a) && is_scalar(b) {
            Ok(Mv::Bool(a != b))
        } else {
            Err(EvalErrorKind::NotComparable)
        },
        BinOp::In => spec_membership(a, b),
        BinOp::NotIn => match spec_membership(a, b) {
            Ok(Mv::Bool(x)) => Ok(Mv::Bool(!x)),
            r => r,
        },
        BinOp::And => match (a, b) {
            (Mv::Bool(x), Mv::Bool(y)) => Ok(Mv::Bool(x && y)),
            _ => Err(EvalErrorKind::TypeMismatch),
        },
        BinOp::Or => match (a, b) {
            (Mv::Bool(x), Mv::Bool(y)) => Ok(Mv::Bool(x || y)),
            _ => Err(EvalErrorKind::TypeMismatch),
        },
    }
}

/// Whether a dictionary model holds an entry under the given key.
pub open spec fn dict_contains_key(ps: Seq<(Seq<char>, Mv)>, k: Seq<char>) -> bool {
    exists|i: int| 0 <= i < ps.len() && ps[i].0 == k
}

/// Exact semantics of membership: a scalar can be sought in an array, a
/// string key in a dictionary; everything else is a type error.
pub open spec fn spec_membership(a: Mv, b: Mv) -> Result<Mv, EvalErrorKind> {
    match b {
        Mv::Array(els) => if is_scalar(a) {
            Ok(Mv::Bool(els.contains(a)))
        } else {
            Err(EvalErrorKind::NotComparable)
        },
        Mv::Dict(ps) => match a {
            Mv::Str(k) => Ok(Mv::Bool(dict_contains_key(ps, k))),
            _ => Err(EvalErrorKind::TypeMismatch),
        },
        _ => Err(EvalErrorKind::TypeMismatch),
    }
}

/// Exact semantics of the unary operators on the model.
pub open spec fn spec_unary(op: UnOp, a: Mv) -> Result<Mv, EvalErrorKind> {
    match op {
        UnOp::Neg => match a {
            Mv::Int(x) => if x == i64::MIN {
                Err(EvalErrorKind::Overflow)
            } else {
                Ok(Mv::Int((-x) as i64))
            },
            _ => Err(EvalErrorKind::TypeMismatch),
        },
        UnOp::Pos => match a {
            Mv::Int(x) => Ok(Mv::Int(x)),
            _ => Err(EvalErrorKind::TypeMismatch),
        },
        UnOp::Not => match a {
            Mv::Bool(x) => Ok(Mv::Bool(!x)),
            _ => Err(EvalErrorKind::TypeMismatch),
        },
    }
}

/// Law: an arithmetic instruction never falls back to a silent default
/// value. Addition of operands that are not both integers, both strings,
/// both arrays or both content nodes is a type error, for every pair of
/// values.
pub proof fn lemma_add_mismatch_is_error(a: Mv, b: Mv)
    requires
        !(a matches Mv::Int(_) && b matches Mv::Int(_)),
        !(a matches Mv::Str(_) && b matches Mv::Str(_)),
        !(a matches Mv::Array(_) && b matches Mv::Array(_)),
        !(a matches Mv::Elem(_, _) && b matches Mv::Elem(_, _)),
    ensures
        spec_binary(BinOp::Add, a, b) == Err::<Mv, EvalErrorKind>(
            EvalErrorKind::TypeMismatch,
        ),
{
}

/// Decides equality of a value against a scalar.
fn eq_scalar(a: &Value, b: &Value) -> (r: bool)
    requires
        is_scalar(m(*b)),
    ensures
        r == (m(*a) == m(*b)),
{
    match (a, b) {
        (Value::Nothing, Value::Nothing) => true,
        (Value::Auto, Value::Auto) => true,
        (Value::Bool(x), Value::Bool(y)) => *x == *y,
        (Value::Int(x), Value::Int(y)) => *x == *y,
        (Value::Str(x), Value::Str(y)) => *x == *y,
        (Value::Label(x), Value::Label(y)) => *x == *y,
        _ => false,
    }
}

/// Whether a value's model is a scalar.
fn is_scalar_value(a: &Value) -> (r: bool)
    ensures
        r == is_scalar(m(*a)),
{
    match a {
        Value::Nothing => true,
        Value::Auto => true,
        Value::Bool(_) => true,
        Value::Int(_) => true,
        Value::Str(_) => true,
        Value::Label(_) => true,
        _ => false,
    }
}

/// Seeks a scalar among the elements of an array.
fn array_contains(els: &Vec<Value>, target: &Value) -> (r: bool)
    requires
        is_scalar(m(*target)),
    ensures
        r == m_seq(els@).contains(m(*target)),
{
    proof {
        lemma_m_seq(els@);
    }
    let mut i: usize = 0;
    while i < els.len()
        invariant
            i <= els@.len(),
            m_seq(els@).len() == els@.len(),
            forall|k: int| 0 <= k < els@.len() ==> m_seq(els@)[k] == m(els@[k]),
            is_scalar(m(*target)),
            forall|k: int| 0 <= k < i ==> m_seq(els@)[k] != m(*target),
        decreases els@.len() - i,
    {
        if eq_scalar(&els[i], target) {
            assert(m_seq(els@)[i as int] == m(*target));
            return true;
        }
        i += 1;
    }
    assert(!m_seq(els@).contains(m(*target)));
    false
}

/// Seeks a key among the entries of a dictionary.
fn dict_has_key(ps: &Vec<(String, Value)>, key: &String) -> (r: bool)
    ensures
        r == dict_contains_key(m_pairs(ps@), key@),
{
    proof {
        lemma_m_pairs(ps@);
    }
    let mut i: usize = 0;
    while i < ps.len()
        invariant
            i <= ps@.len(),
            m_pairs(ps@).len() == ps@.len(),
            forall|k: int| 0 <= k < ps@.len() ==> m_pairs(ps@)[k] == m_pair(ps@[k]),
            forall|k: int| 0 <= k < i ==> m_pairs(ps@)[k].0 != key@,
        decreases ps@.len() - i,
    {
        if ps[i].0 == *key {
            assert(m_pairs(ps@)[i as int].0 == key@);
            return true;
        }
        i += 1;
    }
    assert(!dict_contains_key(m_pairs(ps@), key@));
    false
}

/// Evaluates a binary operator instruction: a pure function of its two
/// operand values, with exactly the model semantics of `spec_binary`.
pub fn eval_binary(op: BinOp, a: Value, b: Value) -> (r: Result<Value, EvalErrorKind>)
    ensures
        m_result(r) == spec_binary(op, m(a), m(b)),
{
    match op {
        BinOp::Add => eval_add(a, b),
        BinOp::Sub => match (a, b) {
            (Value::Int(x), Value::Int(y)) => match x.checked_sub(y) {
                Some(s) => Ok(Value::Int(s)),
                None => Err(EvalErrorKind::Overflow),
            },
            _ => Err(EvalErrorKind::TypeMismatch),
        },
        BinOp::Mul => match (a, b) {
            (Value::Int(x), Value::Int(y)) => match x.checked_mul(y) {
                Some(s) => Ok(Value::Int(s)),
                None => Err(EvalErrorKind::Overflow),
            },
            _ => Err(EvalErrorKind::TypeMismatch),
        },
        BinOp::Div => match (a, b) {
            (Value::Int(x), Value::Int(y)) => if y == 0 {
                Err(EvalErrorKind::DivisionByZero)
            } else {
                match x.checked_div(y) {
                    Some(q) => Ok(Value::Int(q)),
                    None => Err(EvalErrorKind::Overflow),
                }
            },
            _ => Err(EvalErrorKind::TypeMismatch),
        },
        BinOp::Gt => match (a, b) {
            (Value::Int(x), Value::Int(y)) => Ok(Value::Bool(x > y)),
            _ => Err(EvalErrorKind::NotComparable),
        },
        BinOp::Geq => match (a, b) {
            (Value::Int(x), Value::Int(y)) => Ok(Value::Bool(x >= y)),
            _ => Err(EvalErrorKind::NotComparable),
        },
        BinOp::Lt => match (a, b) {
            (Value::Int(x), Value::Int(y)) => Ok(Value::Bool(x < y)),
            _ => Err(EvalErrorKind::NotComparable),
        },
        BinOp::Leq => match (a, b) {
            (Value::Int(x), Value::Int(y)) => Ok(Value::Bool(x <= y)),
            _ => Err(EvalErrorKind::NotComparable),
        },
        BinOp::Eq => if is_scalar_value(&a) && is_scalar_value(&b) {
            Ok(Value::Bool(eq_scalar(&a, &b)))
        } else {
            Err(EvalErrorKind::NotComparable)
        },
        BinOp::Neq => if is_scalar_value(&a) && is_scalar_value(&b) {
            Ok(Value::Bool(!eq_scalar(&a, &b)))
        } else {
            Err(EvalErrorKind::NotComparable)
        },
        BinOp::In => eval_membership(&a, &b),
        BinOp::NotIn => match eval_membership(&a, &b) {
            Ok(Value::Bool(x)) => Ok(Value::Bool(!x)),
            r => r,
        },
        BinOp::And => match (a, b) {
            (Value::Bool(x), Value::Bool(y)) => Ok(Value::Bool(x && y)),
            _ => Err(EvalErrorKind::TypeMismatch),
        },
        BinOp::Or => match (a, b) {
            (Value::Bool(x), Value::Bool(y)) => Ok(Value::Bool(x || y)),
            _ => Err(EvalErrorKind::TypeMismatch),
        },
    }
}

/// Evaluates addition: integer addition, string and array concatenation,
/// and content joining.
fn eval_add(a: Value, b: Value) -> (r: Result<Value, EvalErrorKind>)
    ensures
        m_result(r) == spec_binary(BinOp::Add, m(a), m(b)),
{
    match (a, b) {
        (Value::Int(x), Value::Int(y)) => match x.checked_add(y) {
            Some(s) => Ok(Value::Int(s)),
            None => Err(EvalErrorKind::Overflow),
        },
        (Value::Str(x), Value::Str(y)) => Ok(Value::Str(x.concat(y.as_str()))),
        (Value::Array(x), Value::Array(y)) => {
            let ghost x0 = x@;
            let mut x = x;
            let mut i: usize = 0;
            while i < y.len()
                invariant
                    i <= y@.len(),
                    x@.len() == x0.len() + i,
                    forall|k: int| 0 <= k < x0.len() ==> x@[k] == x0[k],
                    forall|k: int|
                        x0.len() <= k < x@.len() ==> m(#[trigger] x@[k]) == m(y@[k - x0.len()]),
                decreases y@.len() - i,
            {
                let d = y[i].duplicate();
                x.push(d);
                i += 1;
            }
            proof {
                lemma_m_seq(x@);
                lemma_m_seq(x0);
                lemma_m_seq(y@);
                assert(m_seq(x@) =~= m_seq(x0) + m_seq(y@));
            }
            Ok(Value::Array(x))
        },
        (Value::Elem(t1, c1), Value::Elem(t2, c2)) => {
            let mut ch: Vec<Value> = Vec::new();
            ch.push(Value::Elem(t1, c1));
            ch.push(Value::Elem(t2, c2));
            proof {
                lemma_m_seq(ch@);
                assert(m_seq(ch@) =~= seq![m(ch@[0]), m(ch@[1])]);
            }
            Ok(Value::Elem(Tag::Joined, ch))
        },
        _ => Err(EvalErrorKind::TypeMismatch),
    }
}

/// Evaluates membership with exactly the model semantics of
/// `spec_membership`.
fn eval_membership(a: &Value, b: &Value) -> (r: Result<Value, EvalErrorKind>)
    ensures
        m_result(r) == spec_membership(m(*a), m(*b)),
{
    match b {
        Value::Array(els) => if is_scalar_value(a) {
            let hit = array_contains(els, a);
            proof {
                assert(m(*b) == Mv::Array(m_seq(els@)));
                assert(spec_membership(m(*a), m(*b)) == Ok::<Mv, EvalErrorKind>(
                    Mv::Bool(m_seq(els@).contains(m(*a))),
                ));
            }
            Ok(Value::Bool(hit))
        } else {
            Err(EvalErrorKind::NotComparable)
        },
        Value::Dict(ps) => match a {
            Value::Str(k) => {
                let hit = dict_has_key(ps, k);
                proof {
                    assert(m(*b) == Mv::Dict(m_pairs(ps@)));
                    assert(m(*a) == Mv::Str(k@));
                    assert(spec_membership(m(*a), m(*b)) == Ok::<Mv, EvalErrorKind>(
                        Mv::Bool(dict_contains_key(m_pairs(ps@), k@)),
                    ));
                }
                Ok(Value::Bool(hit))
            },
            _ => Err(EvalErrorKind::TypeMismatch),
        },
        _ => Err(EvalErrorKind::TypeMismatch),
    }
}

/// Evaluates a unary operator instruction with exactly the model
/// semantics of `spec_unary`.
pub fn eval_unary(op: UnOp, a: Value) -> (r: Result<Value, EvalErrorKind>)
    ensures
        m_result(r) == spec_unary(op, m(a)),
{
    match op {
        UnOp::Neg => match a {
            Value::Int(x) => if x == i64::MIN {
                Err(EvalErrorKind::Overflow)
            } else {
                Ok(Value::Int(-x))
            },
            _ => Err(EvalErrorKind::TypeMismatch),
        },
        UnOp::Pos => match a {
            Value::Int(x) => Ok(Value::Int(x)),
            _ => Err(EvalErrorKind::TypeMismatch),
        },
        UnOp::Not => match a {
            Value::Bool(x) => Ok(Value::Bool(!x)),
            _ => Err(EvalErrorKind::TypeMismatch),
        },
    }
}

} // verus!
