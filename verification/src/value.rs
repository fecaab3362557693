//! Run-time values of the machine, their mathematical model, and the
//! semantics of the operator instructions.
//!
//! Executable values hold owned heap structures (`String`, `Vec`), so
//! contracts speak of the model [`Mv`], which replaces every container by
//! its mathematical sequence; two values with equal models are
//! observationally the same.

use vstd::prelude::*;

verus! {

/// The shape of a document-content or math-formula node. Operand payloads
/// (labels, levels, flags) are carried as leading children values, so that
/// every node is a tag plus an ordered child list.
#[derive(Clone, Copy, PartialEq, Eq, Structural, Debug)]
pub enum Tag {
    /// An ordered sequence of accumulated children (content joining).
    Joined,
    /// A reference with a supplement: children are `[label, supplement]`.
    RefNode,
    /// Strong emphasis: children are `[body]`.
    Strong,
    /// Emphasis: children are `[body]`.
    Emph,
    /// A heading: children are `[body, level]`.
    Heading,
    /// A list item: children are `[body]`.
    ListItem,
    /// An enum item: children are `[body, number-or-none]`.
    EnumItem,
    /// A term item: children are `[term, description]`.
    TermItem,
    /// An equation: children are `[body, block-flag]`.
    Equation,
    /// A delimited math node: children are `[left, body, right]`.
    Delimited,
    /// An attachment math node: children are `[base, top, bottom]`.
    Attach,
    /// A fraction: children are `[numerator, denominator]`.
    Frac,
    /// A root: children are `[degree-or-none, radicand]`.
    Root,
}

/// A run-time value of the machine.
#[derive(Debug, PartialEq)]
pub enum Value {
    /// The absent value.
    Nothing,
    /// The `auto` value.
    Auto,
    /// A boolean.
    Bool(bool),
    /// An integer.
    Int(i64),
    /// A string.
    Str(String),
    /// A label identity (an interned string).
    Label(u32),
    /// An ordered array of values.
    Array(Vec<Value>),
    /// A dictionary: keyed values in insertion order.
    Dict(Vec<(String, Value)>),
    /// A document-content or math node.
    Elem(Tag, Vec<Value>),
    /// An instantiated callable: a closure template together with the
    /// values captured and the parameter defaults evaluated at
    /// instantiation time. A contextual callable defers its evaluation
    /// until a context-dependent consumer forces it.
    Func { closure: u32, contextual: bool, captured: Vec<Value>, defaults: Vec<Option<Value>> },
    /// An argument bundle: positional (unnamed) and named entries in
    /// emission order.
    Args(Vec<(Option<String>, Value)>),
    /// A module's top-level bindings.
    Module(Vec<(String, Value)>),
}

/// The mathematical model of a [`Value`].
#[verifier::ext_equal]
pub enum Mv {
    Nothing,
    Auto,
    Bool(bool),
    Int(i64),
    Str(Seq<char>),
    Label(u32),
    Array(Seq<Mv>),
    Dict(Seq<(Seq<char>, Mv)>),
    Elem(Tag, Seq<Mv>),
    Func { closure: u32, contextual: bool, captured: Seq<Mv>, defaults: Seq<Option<Mv>> },
    Args(Seq<(Option<Seq<char>>, Mv)>),
    Module(Seq<(Seq<char>, Mv)>),
}

/// The model of a value.
pub open spec fn m(v: Value) -> Mv
    decreases v,
{
    match v {
        Value::Nothing => Mv::Nothing,
        Value::Auto => Mv::Auto,
        Value::Bool(b) => Mv::Bool(b),
        Value::Int(i) => Mv::Int(i),
        Value::Str(s) => Mv::Str(s@),
        Value::Label(l) => Mv::Label(l),
        Value::Array(vs) => Mv::Array(m_seq(vs@)),
        Value::Dict(ps) => Mv::Dict(m_pairs(ps@)),
        Value::Elem(t, cs) => Mv::Elem(t, m_seq(cs@)),
        Value::Func { closure, contextual, captured, defaults } => Mv::Func {
            closure,
            contextual,
            captured: m_seq(captured@),
            defaults: m_opts(defaults@),
        },
        Value::Args(items) => Mv::Args(m_args(items@)),
        Value::Module(ps) => Mv::Module(m_pairs(ps@)),
    }
}

/// The model of a sequence of values.
pub open spec fn m_seq(s: Seq<Value>) -> Seq<Mv>
    decreases s,
{
    if s.len() == 0 {
        Seq::empty()
    } else {
        m_seq(s.drop_last()).push(m(s.last()))
    }
}

/// The model of one optional value.
pub open spec fn m_opt(o: Option<Value>) -> Option<Mv>
    decreases o,
{
    match o {
        Some(v) => Some(m(v)),
        None => None,
    }
}

/// The model of one keyed value.
pub open spec fn m_pair(e: (String, Value)) -> (Seq<char>, Mv)
    decreases e,
{
    (e.0@, m(e.1))
}

/// The model of one argument entry.
pub open spec fn m_arg(e: (Option<String>, Value)) -> (Option<Seq<char>>, Mv)
    decreases e,
{
    (
        match e.0 {
            Some(n) => Some(n@),
            None => None,
        },
        m(e.1),
    )
}

/// The model of a sequence of keyed values.
pub open spec fn m_pairs(s: Seq<(String, Value)>) -> Seq<(Seq<char>, Mv)>
    decreases s,
{
    if s.len() == 0 {
        Seq::empty()
    } else {
        m_pairs(s.drop_last()).push(m_pair(s.last()))
    }
}

/// The model of a sequence of optional values.
pub open spec fn m_opts(s: Seq<Option<Value>>) -> Seq<Option<Mv>>
    decreases s,
{
    if s.len() == 0 {
        Seq::empty()
    } else {
        m_opts(s.drop_last()).push(m_opt(s.last()))
    }
}

/// The model of a sequence of argument entries.
pub open spec fn m_args(s: Seq<(Option<String>, Value)>) -> Seq<(Option<Seq<char>>, Mv)>
    decreases s,
{
    if s.len() == 0 {
        Seq::empty()
    } else {
        m_args(s.drop_last()).push(m_arg(s.last()))
    }
}

/// Pointwise characterization of `m_seq`.
pub proof fn lemma_m_seq(s: Seq<Value>)
    ensures
        m_seq(s).len() == s.len(),
        forall|i: int| 0 <= i < s.len() ==> m_seq(s)[i] == m(s[i]),
    decreases s,
{
    if s.len() > 0 {
        lemma_m_seq(s.drop_last());
    }
}

/// Pointwise characterization of `m_pairs`.
pub proof fn lemma_m_pairs(s: Seq<(String, Value)>)
    ensures
        m_pairs(s).len() == s.len(),
        forall|i: int| 0 <= i < s.len() ==> m_pairs(s)[i] == m_pair(s[i]),
    decreases s,
{
    if s.len() > 0 {
        lemma_m_pairs(s.drop_last());
    }
}

/// Pointwise characterization of `m_opts`.
pub proof fn lemma_m_opts(s: Seq<Option<Value>>)
    ensures
        m_opts(s).len() == s.len(),
        forall|i: int| 0 <= i < s.len() ==> m_opts(s)[i] == m_opt(s[i]),
    decreases s,
{
    if s.len() > 0 {
        lemma_m_opts(s.drop_last());
    }
}

/// Pointwise characterization of `m_args`.
pub proof fn lemma_m_args(s: Seq<(Option<String>, Value)>)
    ensures
        m_args(s).len() == s.len(),
        forall|i: int| 0 <= i < s.len() ==> m_args(s)[i] == m_arg(s[i]),
    decreases s,
{
    if s.len() > 0 {
        lemma_m_args(s.drop_last());
    }
}

/// The model of an updated sequence is the updated model.
pub proof fn lemma_m_seq_update(s: Seq<Value>, i: int, v: Value)
    requires
        0 <= i < s.len(),
    ensures
        m_seq(s.update(i, v)) == m_seq(s).update(i, m(v)),
{
    lemma_m_seq(s);
    lemma_m_seq(s.update(i, v));
    assert(m_seq(s.update(i, v)) =~= m_seq(s).update(i, m(v)));
}

/// The model of an extended sequence is the extended model.
pub proof fn lemma_m_seq_push(s: Seq<Value>, v: Value)
    ensures
        m_seq(s.push(v)) == m_seq(s).push(m(v)),
{
    assert(s.push(v).drop_last() =~= s);
}

impl Value {
    /// Structural copy: the duplicate has the same model as the original.
    pub fn duplicate(&self) -> (r: Value)
        ensures
            m(r) == m(*self),
        decreases *self,
    {
        match self {
            Value::Nothing => Value::Nothing,
            Value::Auto => Value::Auto,
            Value::Bool(b) => Value::Bool(*b),
            Value::Int(i) => Value::Int(*i),
            Value::Str(s) => Value::Str(s.clone()),
            Value::Label(l) => Value::Label(*l),
            Value::Array(vs) => {
                proof {
                    assert(decreases_to!(*self => *vs));
                }
                Value::Array(dup_values(vs))
            },
            Value::Dict(ps) => {
                proof {
                    assert(decreases_to!(*self => *ps));
                }
                Value::Dict(dup_pairs(ps))
            },
            Value::Elem(t, cs) => {
                proof {
                    assert(decreases_to!(*self => *cs));
                }
                Value::Elem(*t, dup_values(cs))
            },
            Value::Func { closure, contextual, captured, defaults } => {
                proof {
                    assert(decreases_to!(*self => *captured));
                    assert(decreases_to!(*self => *defaults));
                }
                Value::Func {
                    closure: *closure,
                    contextual: *contextual,
                    captured: dup_values(captured),
                    defaults: dup_opts(defaults),
                }
            },
            Value::Args(items) => {
                proof {
                    assert(decreases_to!(*self => *items));
                }
                Value::Args(dup_args(items))
            },
            Value::Module(ps) => {
                proof {
                    assert(decreases_to!(*self => *ps));
                }
                Value::Module(dup_pairs(ps))
            },
        }
    }
}

/// Structural copy of a vector of values.
pub fn dup_values(vs: &Vec<Value>) -> (r: Vec<Value>)
    ensures
        m_seq(r@) == m_seq(vs@),
    decreases *vs,
{
    let mut r: Vec<Value> = Vec::new();
    let mut i: usize = 0;
    while i < vs.len()
        invariant
            i <= vs@.len(),
            r@.len() == i,
            forall|k: int| 0 <= k < i ==> m(r@[k]) == m(vs@[k]),
        decreases vs@.len() - i,
    {
        proof {
            assert(decreases_to!(*vs => vs@));
            assert(decreases_to!(vs@ => vs@[i as int]));
        }
        let d = vs[i].duplicate();
        r.push(d);
        i += 1;
    }
    proof {
        lemma_m_seq(r@);
        lemma_m_seq(vs@);
        assert(m_seq(r@) =~= m_seq(vs@));
    }
    r
}

/// Structural copy of a vector of keyed values.
pub fn dup_pairs(ps: &Vec<(String, Value)>) -> (r: Vec<(String, Value)>)
    ensures
        m_pairs(r@) == m_pairs(ps@),
    decreases *ps,
{
    let mut r: Vec<(String, Value)> = Vec::new();
    let mut i: usize = 0;
    while i < ps.len()
        invariant
            i <= ps@.len(),
            r@.len() == i,
            forall|k: int| 0 <= k < i ==> m_pair(#[trigger] r@[k]) == m_pair(ps@[k]),
        decreases ps@.len() - i,
    {
        proof {
            assert(decreases_to!(*ps => ps@));
            assert(decreases_to!(ps@ => ps@[i as int]));
            assert(decreases_to!(ps@[i as int] => ps@[i as int].1));
        }
        let k = ps[i].0.clone();
        let d = ps[i].1.duplicate();
        r.push((k, d));
        i += 1;
    }
    proof {
        lemma_m_pairs(r@);
        lemma_m_pairs(ps@);
        assert(m_pairs(r@) =~= m_pairs(ps@));
    }
    r
}

/// Structural copy of a vector of optional values.
pub fn dup_opts(os: &Vec<Option<Value>>) -> (r: Vec<Option<Value>>)
    ensures
        m_opts(r@) == m_opts(os@),
    decreases *os,
{
    let mut r: Vec<Option<Value>> = Vec::new();
    let mut i: usize = 0;
    while i < os.len()
        invariant
            i <= os@.len(),
            r@.len() == i,
            forall|k: int| 0 <= k < i ==> m_opt(#[trigger] r@[k]) == m_opt(os@[k]),
        decreases os@.len() - i,
    {
        proof {
            assert(decreases_to!(*os => os@));
            assert(decreases_to!(os@ => os@[i as int]));
        }
        let d = match &os[i] {
            Some(v) => {
                proof {
                    assert(decreases_to!(os@[i as int] => *v));
                }
                Some(v.duplicate())
            },
            None => None,
        };
        r.push(d);
        i += 1;
    }
    proof {
        lemma_m_opts(r@);
        lemma_m_opts(os@);
        assert(m_opts(r@) =~= m_opts(os@));
    }
    r
}

/// Structural copy of a vector of argument entries.
pub fn dup_args(items: &Vec<(Option<String>, Value)>) -> (r: Vec<(Option<String>, Value)>)
    ensures
        m_args(r@) == m_args(items@),
    decreases *items,
{
    let mut r: Vec<(Option<String>, Value)> = Vec::new();
    let mut i: usize = 0;
    while i < items.len()
        invariant
            i <= items@.len(),
            r@.len() == i,
            forall|k: int| 0 <= k < i ==> m_arg(#[trigger] r@[k]) == m_arg(items@[k]),
        decreases items@.len() - i,
    {
        proof {
            assert(decreases_to!(*items => items@));
            assert(decreases_to!(items@ => items@[i as int]));
            assert(decreases_to!(items@[i as int] => items@[i as int].1));
        }
        let name = match &items[i].0 {
            Some(n) => Some(n.clone()),
            None => None,
        };
        let d = items[i].1.duplicate();
        r.push((name, d));
        i += 1;
    }
    proof {
        lemma_m_args(r@);
        lemma_m_args(items@);
        assert(m_args(r@) =~= m_args(items@));
    }
    r
}

} // verus!
