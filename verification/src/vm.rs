//! The execution engine: a flat instruction sequence with side tables, a
//! slot file, and a dispatch loop over nested scopes.
//!
//! The loop keeps the instruction pointer inside the bounds of the active
//! scope at every step (jump targets are scope-relative and checked), and
//! it provably terminates: every backward move of the instruction pointer
//! and every loop-body start draws on the engine's iteration budget, and
//! exceeding the budget is a reported error, never a hang.

use vstd::prelude::*;
use vstd::string::StrSliceExecFns;
use crate::opcodes::{
    Opcode, Readable, Writable, AccessId, ClosureId, PatternId, SpanId, StringId,
};
use crate::value::{
    Value, Mv, Tag, m, m_seq, m_pairs, lemma_m_seq, lemma_m_seq_update, lemma_m_seq_push,
    dup_values,
};
use crate::ops::{
    EvalErrorKind, BinOp, UnOp, eval_binary, eval_unary, spec_binary, spec_unary,
    dict_contains_key,
};
use crate::paths::{
    RSeg, MSeg, m_rseg, m_rsegs, dict_get, dict_insert, spread_into, path_read, path_write,
    spec_path_read, spec_path_write, spec_spread,
};

verus! {

/// The two error tiers of the engine: user-facing diagnostics carrying a
/// source span, and fatal invariant violations (a malformed program from
/// the producer), carrying the offending instruction's position.
#[derive(Clone, Copy, PartialEq, Eq, Structural, Debug)]
pub enum VmError {
    /// A user-facing diagnostic, attributed to a source span.
    Eval { kind: EvalErrorKind, span: u64 },
    /// A producer-side invariant break: out-of-range slot, pool index or
    /// jump target. Execution aborts; this is not a user diagnostic.
    Invariant { at: usize },
}

/// The non-local outcome of running a scope.
pub enum Flow {
    /// The scope ran to its end.
    Done,
    /// A `Continue` signal is travelling to the nearest loop scope.
    Continue,
    /// A `Break` signal is travelling to the nearest loop scope.
    Break,
    /// A `Return` signal is travelling to the function boundary.
    Return(Option<Value>),
}

/// One item of an array destructuring pattern.
pub enum PatItem {
    /// Binds one element to an access path.
    Bind(AccessId),
    /// Captures the remaining elements, or discards them.
    Rest(Option<AccessId>),
}

/// One entry of a dictionary destructuring pattern.
pub struct DictPatEntry {
    /// The key to look up.
    pub key: StringId,
    /// Where the value under the key is bound.
    pub access: AccessId,
}

/// A destructuring pattern.
pub enum Pattern {
    /// Binds the whole value.
    Single(AccessId),
    /// Binds array elements positionally, with at most one rest capture.
    Array(Vec<PatItem>),
    /// Binds dictionary entries by key, with an optional rest capture.
    Dict { entries: Vec<DictPatEntry>, rest: Option<AccessId> },
}

/// One unresolved access-path segment as emitted by the producer.
pub enum Segment {
    /// A field name from the string pool.
    Field(StringId),
    /// An index computed at run time.
    Index(Readable),
}

/// An access path: a root register and a chain of projections.
pub struct Access {
    /// The register the path is rooted at.
    pub root: u32,
    /// The projections applied to the root.
    pub segments: Vec<Segment>,
}

/// One parameter of a closure template.
pub struct Param {
    /// The parameter's name in the string pool.
    pub name: StringId,
    /// The frame register that receives the argument.
    pub slot: u32,
    /// The default value's operand, evaluated at instantiation time.
    pub default: Option<Readable>,
}

/// A closure template: a body range in the flat program, the variables it
/// captures, and its parameters.
pub struct Closure {
    /// First instruction of the body.
    pub start: u32,
    /// Number of body instructions.
    pub len: u32,
    /// Whether the body joins content.
    pub content: bool,
    /// Number of registers of the body's frame.
    pub frame: u32,
    /// Captured operands and the frame registers they land in.
    pub captures: Vec<(Readable, u32)>,
    /// The parameters in declaration order.
    pub params: Vec<Param>,
}

/// A styling rule recorded by the styling instructions, observed by later
/// content-producing consumers.
pub enum StyleRule {
    /// Applies a set rule unconditionally from here on.
    SetRule { target: Value, args: Value },
    /// Applies a show rule, optionally filtered by a selector.
    ShowRule { selector: Option<Value>, transform: Value, span: u64 },
    /// A show rule that applies a set rule.
    ShowSetRule { selector: Option<Value>, target: Value, args: Value, span: u64 },
}

/// A program: the flat instruction sequence, one span per instruction,
/// and the pool tables the operands index into. Instructions and pools
/// are immutable during execution.
pub struct Program {
    /// The flat instruction sequence.
    pub instructions: Vec<Opcode>,
    /// One span identity per instruction, for diagnostics.
    pub spans: Vec<u64>,
    /// The constant pool.
    pub constants: Vec<Value>,
    /// The string pool (field names, argument names).
    pub strings: Vec<String>,
    /// The span pool for operands that carry their own span.
    pub span_pool: Vec<u64>,
    /// The label pool: interned label identities.
    pub labels: Vec<u32>,
    /// The access-path pool.
    pub accesses: Vec<Access>,
    /// The destructuring-pattern pool.
    pub patterns: Vec<Pattern>,
    /// The closure-template pool.
    pub closures: Vec<Closure>,
    /// The module pool: a loaded module value, or nothing when loading
    /// failed and the instruction must raise a diagnostic.
    pub modules: Vec<Option<Value>>,
    /// The include table: loaded content by path.
    pub includes: Vec<(String, Value)>,
}

/// The engine's mutable counters and styling state. The slot file is
/// passed separately so that calls can run on a fresh frame.
pub struct Vm {
    /// Loop steps taken so far.
    pub iterations: u64,
    /// The configured runaway-loop budget.
    pub budget: u64,
    /// Styling rules recorded so far, in order.
    pub styles: Vec<StyleRule>,
}

impl Vm {
    /// A fresh engine with the given iteration budget.
    pub fn new(budget: u64) -> (r: Vm)
        ensures
            r.iterations == 0,
            r.budget == budget,
            r.styles@.len() == 0,
    {
        Vm { iterations: 0, budget, styles: Vec::new() }
    }

    /// Draws one step from the iteration budget: the runaway-loop check.
    /// The step is granted exactly as long as the budget is not yet
    /// exhausted; a loop that never terminates is reported, not run.
    pub fn begin_iteration(&mut self) -> (r: Result<(), EvalErrorKind>)
        ensures
            final(self).budget == old(self).budget,
            final(self).styles == old(self).styles,
            match r {
                Ok(_) => old(self).iterations < old(self).budget && final(self).iterations
                    == old(self).iterations + 1,
                Err(k) => k == EvalErrorKind::TooManyIterations && old(self).iterations
                    >= old(self).budget && final(self).iterations == old(self).iterations,
            },
    {
        if self.iterations < self.budget {
            self.iterations = self.iterations + 1;
            Ok(())
        } else {
            Err(EvalErrorKind::TooManyIterations)
        }
    }
}

/// A fresh slot file of `n` registers, each holding the absent value.
pub fn new_regs(n: usize) -> (r: Vec<Value>)
    ensures
        r@.len() == n,
        forall|k: int| 0 <= k < n ==> m(#[trigger] r@[k]) == Mv::Nothing,
{
    let mut r: Vec<Value> = Vec::new();
    let mut i: usize = 0;
    while i < n
        invariant
            i <= n,
            r@.len() == i,
            forall|k: int| 0 <= k < i ==> m(#[trigger] r@[k]) == Mv::Nothing,
        decreases n - i,
    {
        r.push(Value::Nothing);
        i += 1;
    }
    r
}

/// Folds a scope's accumulated values into its product: joined content in
/// emission order for a content scope, the absent value otherwise.
pub fn fold_scope(joined: Vec<Value>, content: bool) -> (r: Value)
    ensures
        content ==> m(r) == Mv::Elem(Tag::Joined, m_seq(joined@)),
        !content ==> m(r) == Mv::Nothing,
{
    if content {
        Value::Elem(Tag::Joined, joined)
    } else {
        Value::Nothing
    }
}

/// The product a scope yields on exit: its accumulated values folded in
/// emission order for a content-joining scope, the absent value
/// otherwise.
pub open spec fn scope_product(buf: Seq<Value>, content: bool) -> Mv {
    if content {
        Mv::Elem(Tag::Joined, m_seq(buf))
    } else {
        Mv::Nothing
    }
}

/// Exits a scope: folds the accumulated buffer into the scope's product
/// and writes it to the scope's destination. Every exit of a scope —
/// running off its end, a `Break`, a `Return` travelling through, or a
/// clean iterator exhaustion — goes through here, so accumulated content
/// is never lost.
fn finish_scope(
    regs: &mut Vec<Value>,
    joined: &mut Vec<Value>,
    buf: Vec<Value>,
    content: bool,
    out: Writable,
    at: usize,
) -> (res: Result<(), VmError>)
    ensures
        final(regs)@.len() == old(regs)@.len(),
        match res {
            Ok(_) => match out {
                Writable::Reg(r) => (r as int) < old(regs)@.len() && m_seq(final(regs)@)
                    == m_seq(old(regs)@).update(r as int, scope_product(buf@, content))
                    && final(joined)@ == old(joined)@,
                Writable::Joined => m_seq(final(joined)@) == m_seq(old(joined)@).push(
                    scope_product(buf@, content),
                ) && final(regs)@ == old(regs)@,
            },
            Err(e) => e == (VmError::Invariant { at }) && final(regs)@ == old(regs)@
                && final(joined)@ == old(joined)@ && match out {
                Writable::Reg(r) => (r as int) >= old(regs)@.len(),
                Writable::Joined => false,
            },
        },
{
    let v = fold_scope(buf, content);
    let ghost pre = regs@;
    let r = write_operand(regs, joined, out, v, at);
    proof {
        if r is Ok {
            match out {
                Writable::Reg(x) => {
                    lemma_m_seq_update(pre, x as int, v);
                },
                Writable::Joined => {
                    lemma_m_seq_push(old(joined)@, v);
                },
            }
        }
    }
    r
}

/// Hands out the next element of an attached iterator, or reports
/// exhaustion without advancing and without writing anything.
pub fn next_item(items: &Vec<Value>, idx: &mut usize) -> (r: Option<Value>)
    ensures
        match r {
            Some(v) => *old(idx) < items@.len() && m(v) == m(items@[*old(idx) as int])
                && *final(idx) == *old(idx) + 1,
            None => *old(idx) >= items@.len() && *final(idx) == *old(idx),
        },
{
    if *idx < items.len() {
        let v = items[*idx].duplicate();
        *idx = *idx + 1;
        Some(v)
    } else {
        None
    }
}

/// The elements an `Iter` scope walks, by value kind: array elements in
/// order, dictionary entries as key-value pair arrays in insertion order.
pub open spec fn spec_iter_items(v: Mv) -> Result<Seq<Mv>, EvalErrorKind> {
    match v {
        Mv::Array(els) => Ok(els),
        Mv::Dict(ps) => Ok(
            ps.map_values(|e: (Seq<char>, Mv)| Mv::Array(seq![Mv::Str(e.0), e.1])),
        ),
        Mv::Str(cs) => Ok(Seq::new(cs.len(), |i: int| Mv::Str(seq![cs[i]]))),
        _ => Err(EvalErrorKind::NotIterable),
    }
}

/// Relies on char's `ToString`: the returned string holds exactly this
/// one character.
#[verifier::external_body]
fn char_to_string(c: char) -> (r: String)
    ensures
        r@ == seq![c],
{
    c.to_string()
}

/// Materializes the elements an `Iter` scope walks.
pub fn make_iter_items(v: &Value) -> (r: Result<Vec<Value>, EvalErrorKind>)
    ensures
        match r {
            Ok(items) => spec_iter_items(m(*v)) == Ok::<Seq<Mv>, EvalErrorKind>(
                m_seq(items@),
            ),
            Err(k) => spec_iter_items(m(*v)) == Err::<Seq<Mv>, EvalErrorKind>(k),
        },
{
    match v {
        Value::Array(els) => {
            let r = dup_values(els);
            Ok(r)
        },
        Value::Dict(ps) => {
            let ghost mps = crate::value::m_pairs(ps@);
            proof {
                crate::value::lemma_m_pairs(ps@);
            }
            let mut items: Vec<Value> = Vec::new();
            let mut i: usize = 0;
            while i < ps.len()
                invariant
                    i <= ps@.len(),
                    mps == crate::value::m_pairs(ps@),
                    mps.len() == ps@.len(),
                    forall|j: int| 0 <= j < ps@.len() ==> mps[j] == crate::value::m_pair(
                        ps@[j],
                    ),
                    items@.len() == i,
                    m_seq(items@).len() == i,
                    forall|j: int| 0 <= j < i ==> m_seq(items@)[j] == Mv::Array(
                        seq![Mv::Str(mps[j].0), mps[j].1],
                    ),
                decreases ps@.len() - i,
            {
                let k = ps[i].0.clone();
                let d = ps[i].1.duplicate();
                let mut pair: Vec<Value> = Vec::new();
                pair.push(Value::Str(k));
                pair.push(d);
                proof {
                    lemma_m_seq(pair@);
                    assert(m_seq(pair@) =~= seq![m(pair@[0]), m(pair@[1])]);
                }
                let ghost prev = items@;
                items.push(Value::Array(pair));
                proof {
                    assert(items@.drop_last() =~= prev);
                    assert(m_seq(items@) == m_seq(prev).push(m(items@.last())));
                    lemma_m_seq(items@);
                }
                i += 1;
            }
            proof {
                assert(m_seq(items@) =~= mps.map_values(
                    |e: (Seq<char>, Mv)| Mv::Array(seq![Mv::Str(e.0), e.1]),
                ));
            }
            Ok(items)
        },
        Value::Str(text) => {
            let n = text.as_str().unicode_len();
            let mut items: Vec<Value> = Vec::new();
            let mut i: usize = 0;
            while i < n
                invariant
                    i <= n,
                    n == text@.len(),
                    items@.len() == i,
                    m_seq(items@).len() == i,
                    forall|j: int| 0 <= j < i ==> m_seq(items@)[j] == Mv::Str(
                        seq![text@[j]],
                    ),
                decreases n - i,
            {
                let c = text.as_str().get_char(i);
                let one = char_to_string(c);
                let ghost prev = items@;
                items.push(Value::Str(one));
                proof {
                    assert(items@.drop_last() =~= prev);
                    assert(m_seq(items@) == m_seq(prev).push(m(items@.last())));
                    lemma_m_seq(items@);
                }
                i += 1;
            }
            proof {
                assert(m_seq(items@) =~= Seq::new(
                    text@.len(),
                    |j: int| Mv::Str(seq![text@[j]]),
                ));
            }
            Ok(items)
        },
        _ => Err(EvalErrorKind::NotIterable),
    }
}

/// Reads a readable operand: a duplicate of the constant or register it
/// names.
pub fn read_operand(prog: &Program, regs: &Vec<Value>, r: Readable, at: usize) -> (res: Result<
    Value,
    VmError,
>)
    ensures
        match res {
            Ok(v) => match r {
                Readable::Const(i) => (i as int) < prog.constants@.len() && m(v) == m(
                    prog.constants@[i as int],
                ),
                Readable::Reg(i) => (i as int) < regs@.len() && m(v) == m(regs@[i as int]),
            },
            Err(e) => e == (VmError::Invariant { at }) && match r {
                Readable::Const(i) => (i as int) >= prog.constants@.len(),
                Readable::Reg(i) => (i as int) >= regs@.len(),
            },
        },
{
    match r {
        Readable::Const(i) => {
            if (i as usize) < prog.constants.len() {
                Ok(prog.constants[i as usize].duplicate())
            } else {
                Err(VmError::Invariant { at })
            }
        },
        Readable::Reg(i) => {
            if (i as usize) < regs.len() {
                Ok(regs[i as usize].duplicate())
            } else {
                Err(VmError::Invariant { at })
            }
        },
    }
}

/// Writes an instruction's result to its destination: a register of the
/// slot file, or the innermost content-joining buffer.
pub fn write_operand(
    regs: &mut Vec<Value>,
    joined: &mut Vec<Value>,
    w: Writable,
    v: Value,
    at: usize,
) -> (res: Result<(), VmError>)
    ensures
        final(regs)@.len() == old(regs)@.len(),
        match res {
            Ok(_) => match w {
                Writable::Reg(r) => (r as int) < old(regs)@.len() && final(regs)@ == old(
                    regs,
                )@.update(r as int, v) && final(joined)@ == old(joined)@,
                Writable::Joined => final(joined)@ == old(joined)@.push(v) && final(regs)@
                    == old(regs)@,
            },
            Err(e) => e == (VmError::Invariant { at }) && final(regs)@ == old(regs)@
                && final(joined)@ == old(joined)@ && match w {
                Writable::Reg(r) => (r as int) >= old(regs)@.len(),
                Writable::Joined => false,
            },
        },
{
    match w {
        Writable::Reg(r) => {
            if (r as usize) < regs.len() {
                regs.set(r as usize, v);
                Ok(())
            } else {
                Err(VmError::Invariant { at })
            }
        },
        Writable::Joined => {
            joined.push(v);
            Ok(())
        },
    }
}

/// The outcome of resolving an access path's segments on the model: the
/// resolved model segments; a user-facing error (an index operand whose
/// value is not an integer); or, as `Err(None)`, a producer invariant
/// break (an out-of-range pool or operand index). The earliest failing
/// segment decides.
pub open spec fn spec_resolve(
    prog: Program,
    regs: Seq<Value>,
    segs: Seq<Segment>,
) -> Result<Seq<MSeg>, Option<EvalErrorKind>>
    decreases segs.len(),
{
    if segs.len() == 0 {
        Ok(Seq::empty())
    } else {
        match spec_resolve(prog, regs, segs.drop_last()) {
            Ok(rs) => match segs.last() {
                Segment::Field(sid) => if (sid.0 as int) < prog.strings@.len() {
                    Ok(rs.push(MSeg::Field(prog.strings@[sid.0 as int]@)))
                } else {
                    Err(None)
                },
                Segment::Index(r) => match operand_model(prog, regs, r) {
                    Some(Mv::Int(ix)) => Ok(rs.push(MSeg::Index(ix as int))),
                    Some(_) => Err(Some(EvalErrorKind::TypeMismatch)),
                    None => Err(None),
                },
            },
            Err(e) => Err(e),
        }
    }
}

/// Once a prefix of the segments fails to resolve, the whole chain fails
/// the same way.
proof fn lemma_resolve_error_persists(
    prog: Program,
    regs: Seq<Value>,
    segs: Seq<Segment>,
    i: int,
)
    requires
        0 <= i <= segs.len(),
        spec_resolve(prog, regs, segs.subrange(0, i)) is Err,
    ensures
        spec_resolve(prog, regs, segs) == spec_resolve(prog, regs, segs.subrange(0, i)),
    decreases segs.len() - i,
{
    if i == segs.len() {
        assert(segs.subrange(0, i) =~= segs);
    } else {
        assert(segs.subrange(0, i + 1).drop_last() =~= segs.subrange(0, i));
        assert(spec_resolve(prog, regs, segs.subrange(0, i + 1)) == spec_resolve(
            prog,
            regs,
            segs.subrange(0, i),
        ));
        lemma_resolve_error_persists(prog, regs, segs, i + 1);
    }
}

/// Resolves the producer-emitted segments of an access path into plain
/// field names and indices, with exactly the outcome of `spec_resolve`.
#[verifier::loop_isolation(false)]
fn resolve_segments(
    prog: &Program,
    regs: &Vec<Value>,
    segments: &Vec<Segment>,
    at: usize,
    span: u64,
) -> (res: Result<Vec<RSeg>, VmError>)
    ensures
        match res {
            Ok(rsegs) => spec_resolve(*prog, regs@, segments@) == Ok::<
                Seq<MSeg>,
                Option<EvalErrorKind>,
            >(m_rsegs(rsegs@)),
            Err(VmError::Eval { kind, span: s }) => s == span && spec_resolve(
                *prog,
                regs@,
                segments@,
            ) == Err::<Seq<MSeg>, Option<EvalErrorKind>>(Some(kind)),
            Err(VmError::Invariant { at: a }) => a == at && spec_resolve(
                *prog,
                regs@,
                segments@,
            ) == Err::<Seq<MSeg>, Option<EvalErrorKind>>(None),
        },
{
    let mut out: Vec<RSeg> = Vec::new();
    let mut i: usize = 0;
    proof {
        assert(segments@.subrange(0, 0) =~= Seq::<Segment>::empty());
        assert(m_rsegs(out@) =~= Seq::<MSeg>::empty());
    }
    while i < segments.len()
        invariant
            i <= segments@.len(),
            spec_resolve(*prog, regs@, segments@.subrange(0, i as int)) == Ok::<
                Seq<MSeg>,
                Option<EvalErrorKind>,
            >(m_rsegs(out@)),
        decreases segments@.len() - i,
    {
        let ghost pre = segments@.subrange(0, i as int);
        proof {
            assert(segments@.subrange(0, i as int + 1).drop_last() =~= pre);
            assert(segments@.subrange(0, i as int + 1).last() == segments@[i as int]);
        }
        match &segments[i] {
            Segment::Field(sid) => {
                if (sid.0 as usize) < prog.strings.len() {
                    let k = prog.strings[sid.0 as usize].clone();
                    proof {
                        out@.lemma_push_map_commute(
                            |x: RSeg| m_rseg(x),
                            RSeg::Field(k),
                        );
                    }
                    out.push(RSeg::Field(k));
                } else {
                    proof {
                        lemma_resolve_error_persists(*prog, regs@, segments@, i as int + 1);
                    }
                    return Err(VmError::Invariant { at });
                }
            },
            Segment::Index(r) => {
                let v = match read_operand(prog, regs, *r, at) {
                    Ok(v) => v,
                    Err(e) => {
                        proof {
                            lemma_resolve_error_persists(
                                *prog,
                                regs@,
                                segments@,
                                i as int + 1,
                            );
                        }
                        return Err(e);
                    },
                };
                match v {
                    Value::Int(ix) => {
                        proof {
                            out@.lemma_push_map_commute(
                                |x: RSeg| m_rseg(x),
                                RSeg::Index(ix),
                            );
                        }
                        out.push(RSeg::Index(ix));
                    },
                    _ => {
                        proof {
                            lemma_resolve_error_persists(
                                *prog,
                                regs@,
                                segments@,
                                i as int + 1,
                            );
                        }
                        return Err(
                            VmError::Eval { kind: EvalErrorKind::TypeMismatch, span },
                        );
                    },
                }
            },
        }
        i += 1;
    }
    proof {
        assert(segments@.subrange(0, segments@.len() as int) =~= segments@);
    }
    Ok(out)
}

/// Reads the value an access path names: the root register's value
/// projected through the resolved segments, exactly per `spec_path_read`.
pub fn read_access(
    prog: &Program,
    regs: &Vec<Value>,
    id: AccessId,
    at: usize,
    span: u64,
) -> (res: Result<Value, VmError>)
    ensures
        match res {
            Ok(v) => (id.0 as int) < prog.accesses@.len() && (
            prog.accesses@[id.0 as int].root as int) < regs@.len() && match spec_resolve(
                *prog,
                regs@,
                prog.accesses@[id.0 as int].segments@,
            ) {
                Ok(segs) => spec_path_read(
                    m(regs@[prog.accesses@[id.0 as int].root as int]),
                    segs,
                ) == Ok::<Mv, EvalErrorKind>(m(v)),
                Err(_) => false,
            },
            Err(VmError::Eval { kind, span: s }) => s == span && (id.0 as int)
                < prog.accesses@.len() && (prog.accesses@[id.0 as int].root as int)
                < regs@.len() && match spec_resolve(
                *prog,
                regs@,
                prog.accesses@[id.0 as int].segments@,
            ) {
                Ok(segs) => spec_path_read(
                    m(regs@[prog.accesses@[id.0 as int].root as int]),
                    segs,
                ) == Err::<Mv, EvalErrorKind>(kind),
                Err(e) => e == Some(kind),
            },
            Err(VmError::Invariant { at: a }) => a == at && ((id.0 as int)
                >= prog.accesses@.len() || (prog.accesses@[id.0 as int].root as int)
                >= regs@.len() || spec_resolve(
                *prog,
                regs@,
                prog.accesses@[id.0 as int].segments@,
            ) == Err::<Seq<MSeg>, Option<EvalErrorKind>>(None)),
        },
{
    if (id.0 as usize) >= prog.accesses.len() {
        return Err(VmError::Invariant { at });
    }
    let acc = &prog.accesses[id.0 as usize];
    if (acc.root as usize) >= regs.len() {
        return Err(VmError::Invariant { at });
    }
    let segs = match resolve_segments(prog, regs, &acc.segments, at, span) {
        Ok(s) => s,
        Err(e) => {
            return Err(e);
        },
    };
    proof {
        assert(m_rsegs(segs@).subrange(0, segs@.len() as int) =~= m_rsegs(segs@));
    }
    match path_read(&regs[acc.root as usize], &segs, 0) {
        Ok(v) => Ok(v),
        Err(k) => Err(VmError::Eval { kind: k, span }),
    }
}

/// Writes a value to the place an access path names, rebuilding the
/// containers along the path: the root register becomes exactly the
/// `spec_path_write` result, and a failed write changes nothing.
pub fn write_access(
    prog: &Program,
    regs: &mut Vec<Value>,
    id: AccessId,
    v: Value,
    at: usize,
    span: u64,
) -> (res: Result<(), VmError>)
    ensures
        final(regs)@.len() == old(regs)@.len(),
        match res {
            Ok(_) => (id.0 as int) < prog.accesses@.len() && (
            prog.accesses@[id.0 as int].root as int) < old(regs)@.len() && match spec_resolve(
                *prog,
                old(regs)@,
                prog.accesses@[id.0 as int].segments@,
            ) {
                Ok(segs) => match spec_path_write(
                    m(old(regs)@[prog.accesses@[id.0 as int].root as int]),
                    segs,
                    m(v),
                ) {
                    Ok(w) => m_seq(final(regs)@) == m_seq(old(regs)@).update(
                        prog.accesses@[id.0 as int].root as int,
                        w,
                    ),
                    Err(_) => false,
                },
                Err(_) => false,
            },
            Err(VmError::Eval { kind, span: s }) => s == span && final(regs)@ == old(regs)@
                && (id.0 as int) < prog.accesses@.len() && (
            prog.accesses@[id.0 as int].root as int) < old(regs)@.len() && match spec_resolve(
                *prog,
                old(regs)@,
                prog.accesses@[id.0 as int].segments@,
            ) {
                Ok(segs) => spec_path_write(
                    m(old(regs)@[prog.accesses@[id.0 as int].root as int]),
                    segs,
                    m(v),
                ) == Err::<Mv, EvalErrorKind>(kind),
                Err(e) => e == Some(kind),
            },
            Err(VmError::Invariant { at: a }) => a == at && final(regs)@ == old(regs)@ && ((
            id.0 as int) >= prog.accesses@.len() || (
            prog.accesses@[id.0 as int].root as int) >= old(regs)@.len() || spec_resolve(
                *prog,
                old(regs)@,
                prog.accesses@[id.0 as int].segments@,
            ) == Err::<Seq<MSeg>, Option<EvalErrorKind>>(None)),
        },
{
    if (id.0 as usize) >= prog.accesses.len() {
        return Err(VmError::Invariant { at });
    }
    let acc = &prog.accesses[id.0 as usize];
    if (acc.root as usize) >= regs.len() {
        return Err(VmError::Invariant { at });
    }
    let segs = match resolve_segments(prog, regs, &acc.segments, at, span) {
        Ok(s) => s,
        Err(e) => {
            return Err(e);
        },
    };
    proof {
        assert(m_rsegs(segs@).subrange(0, segs@.len() as int) =~= m_rsegs(segs@));
    }
    let updated = match path_write(&regs[acc.root as usize], &segs, 0, v) {
        Ok(u) => u,
        Err(k) => {
            return Err(VmError::Eval { kind: k, span });
        },
    };
    let ghost pre = regs@;
    let root = acc.root as usize;
    regs.set(root, updated);
    proof {
        lemma_m_seq_update(pre, root as int, updated);
    }
    Ok(())
}

/// How many elements an array pattern binds, besides a rest capture.
pub open spec fn spec_bind_count(items: Seq<PatItem>) -> int
    decreases items.len(),
{
    if items.len() == 0 {
        0
    } else {
        spec_bind_count(items.drop_last()) + match items.last() {
            PatItem::Bind(_) => 1int,
            PatItem::Rest(_) => 0int,
        }
    }
}

/// Whether an array pattern has a rest capture.
pub open spec fn spec_has_rest(items: Seq<PatItem>) -> bool {
    exists|i: int| 0 <= i < items.len() && (#[trigger] items[i] matches PatItem::Rest(_))
}

/// Whether a value's shape is compatible with an array pattern: exactly
/// as many elements as bindings, or at least as many when a rest capture
/// absorbs the middle.
pub open spec fn spec_array_shape_ok(binds: int, has_rest: bool, v: Mv) -> bool {
    match v {
        Mv::Array(els) => if has_rest {
            els.len() >= binds
        } else {
            els.len() == binds
        },
        _ => false,
    }
}

/// Whether every key a dictionary pattern names (among those whose pool
/// index is in range) is present in the dictionary model.
pub open spec fn dict_keys_present(
    prog: Program,
    entries: Seq<DictPatEntry>,
    ps: Seq<(Seq<char>, Mv)>,
) -> bool {
    forall|i: int|
        0 <= i < entries.len() && ((#[trigger] entries[i]).key.0 as int)
            < prog.strings@.len() ==> dict_contains_key(
            ps,
            prog.strings@[entries[i].key.0 as int]@,
        )
}

/// Counts the bindings of an array pattern and finds its rest capture.
fn scan_pattern(items: &Vec<PatItem>) -> (r: (usize, bool))
    ensures
        r.0 == spec_bind_count(items@),
        r.1 == spec_has_rest(items@),
{
    let mut binds: usize = 0;
    let mut has_rest: bool = false;
    let mut i: usize = 0;
    while i < items.len()
        invariant
            i <= items@.len(),
            binds == spec_bind_count(items@.subrange(0, i as int)),
            binds <= i,
            has_rest == spec_has_rest(items@.subrange(0, i as int)),
        decreases items@.len() - i,
    {
        let ghost pre = items@.subrange(0, i as int);
        proof {
            assert(items@.subrange(0, i as int + 1).drop_last() =~= pre);
        }
        match &items[i] {
            PatItem::Bind(_) => {
                binds = binds + 1;
                proof {
                    let cur = items@.subrange(0, i as int + 1);
                    if spec_has_rest(cur) {
                        let w = choose|j: int|
                            0 <= j < cur.len() && (#[trigger] cur[j] matches PatItem::Rest(
                                _,
                            ));
                        assert(pre[w] == cur[w]);
                    }
                    if spec_has_rest(pre) {
                        let w = choose|j: int|
                            0 <= j < pre.len() && (#[trigger] pre[j] matches PatItem::Rest(
                                _,
                            ));
                        assert(cur[w] == pre[w]);
                    }
                }
            },
            PatItem::Rest(_) => {
                has_rest = true;
                proof {
                    assert(items@.subrange(0, i as int + 1)[i as int] matches PatItem::Rest(
                        _,
                    ));
                }
            },
        }
        i += 1;
    }
    proof {
        assert(items@.subrange(0, items@.len() as int) =~= items@);
    }
    (binds, has_rest)
}


/// A prefix of a pattern never binds more than the whole pattern, and
/// what remains to bind fits in the remaining items.
proof fn lemma_bind_count_prefix(s: Seq<PatItem>, i: int)
    requires
        0 <= i <= s.len(),
    ensures
        spec_bind_count(s.subrange(0, i)) <= spec_bind_count(s),
        spec_bind_count(s) - spec_bind_count(s.subrange(0, i)) <= s.len() - i,
        spec_bind_count(s) >= 0,
    decreases s.len(),
{
    if i == s.len() {
        assert(s.subrange(0, i) =~= s);
        if s.len() > 0 {
            lemma_bind_count_prefix(s.drop_last(), s.len() - 1);
        }
    } else {
        let d = s.drop_last();
        lemma_bind_count_prefix(d, i);
        assert(s.subrange(0, i) =~= d.subrange(0, i));
    }
}

/// Binds a destructuring pattern against a value. A value whose shape
/// does not match the pattern is rejected before any binding is written,
/// so a failed destructuring never leaves a partial bind behind.
#[verifier::loop_isolation(false)]
pub fn destructure(
    prog: &Program,
    regs: &mut Vec<Value>,
    pat_id: PatternId,
    value: &Value,
    at: usize,
    span: u64,
) -> (res: Result<(), VmError>)
    ensures
        final(regs)@.len() == old(regs)@.len(),
        (pat_id.0 as int) < prog.patterns@.len() ==> match prog.patterns@[pat_id.0 as int] {
            Pattern::Array(items) => {
                &&& (!spec_array_shape_ok(
                    spec_bind_count(items@),
                    spec_has_rest(items@),
                    m(*value),
                ) ==> res == Err::<(), VmError>(
                    VmError::Eval { kind: EvalErrorKind::DestructureMismatch, span },
                ) && final(regs)@ == old(regs)@)
                &&& (res is Ok ==> spec_array_shape_ok(
                    spec_bind_count(items@),
                    spec_has_rest(items@),
                    m(*value),
                ))
            },
            Pattern::Dict { entries, rest } => {
                &&& (!(m(*value) matches Mv::Dict(_)) ==> res == Err::<(), VmError>(
                    VmError::Eval { kind: EvalErrorKind::DestructureMismatch, span },
                ) && final(regs)@ == old(regs)@)
                &&& (match m(*value) {
                    Mv::Dict(ps) => ((forall|i: int|
                        0 <= i < entries@.len() ==> ((#[trigger] entries@[i]).key.0 as int)
                            < prog.strings@.len()) && !dict_keys_present(
                        *prog,
                        entries@,
                        ps,
                    )) ==> res == Err::<(), VmError>(
                        VmError::Eval { kind: EvalErrorKind::MissingKey, span },
                    ) && final(regs)@ == old(regs)@,
                    _ => true,
                })
                &&& (res is Ok ==> match m(*value) {
                    Mv::Dict(ps) => dict_keys_present(*prog, entries@, ps),
                    _ => false,
                })
            },
            Pattern::Single(_) => true,
        },
{
    if (pat_id.0 as usize) >= prog.patterns.len() {
        return Err(VmError::Invariant { at });
    }
    match &prog.patterns[pat_id.0 as usize] {
        Pattern::Single(acc) => {
            let v = value.duplicate();
            write_access(prog, regs, *acc, v, at, span)
        },
        Pattern::Array(items) => {
            let (binds, has_rest) = scan_pattern(items);
            proof {
                lemma_bind_count_prefix(items@, 0);
            }
            match value {
                Value::Array(els) => {
                    proof {
                        lemma_m_seq(els@);
                    }
                    if has_rest {
                        if els.len() < binds {
                            return Err(
                                VmError::Eval {
                                    kind: EvalErrorKind::DestructureMismatch,
                                    span,
                                },
                            );
                        }
                    } else {
                        if els.len() != binds {
                            return Err(
                                VmError::Eval {
                                    kind: EvalErrorKind::DestructureMismatch,
                                    span,
                                },
                            );
                        }
                    }
                    let mut i: usize = 0;
                    let mut seen: usize = 0;
                    let mut rest_done = false;
                    let mut after_rest: usize = 0;
                    while i < items.len()
                        invariant
                            i <= items@.len(),
                            seen == spec_bind_count(items@.subrange(0, i as int)),
                            seen <= binds,
                            binds == spec_bind_count(items@),
                            binds <= els@.len(),
                            regs@.len() == old(regs)@.len(),
                            after_rest <= seen,
                        decreases items@.len() - i,
                    {
                        let ghost pre = items@.subrange(0, i as int);
                        proof {
                            assert(items@.subrange(0, i as int + 1).drop_last() =~= pre);
                            lemma_bind_count_prefix(items@, i as int + 1);
                        }
                        match &items[i] {
                            PatItem::Bind(acc) => {
                                let e_idx: usize = if !rest_done {
                                    seen
                                } else {
                                    els.len() - (binds - seen)
                                };
                                let v = els[e_idx].duplicate();
                                match write_access(prog, regs, *acc, v, at, span) {
                                    Ok(_) => (),
                                    Err(e) => {
                                        return Err(e);
                                    },
                                }
                                seen = seen + 1;
                            },
                            PatItem::Rest(r) => {
                                if rest_done {
                                    return Err(VmError::Invariant { at });
                                }
                                rest_done = true;
                                match r {
                                    Some(acc) => {
                                        let hi = els.len() - (binds - seen);
                                        let mut mid: Vec<Value> = Vec::new();
                                        let mut j: usize = seen;
                                        while j < hi
                                            invariant
                                                seen <= j <= hi,
                                                hi <= els@.len(),
                                                regs@.len() == old(regs)@.len(),
                                            decreases hi - j,
                                        {
                                            let d = els[j].duplicate();
                                            mid.push(d);
                                            j += 1;
                                        }
                                        match write_access(
                                            prog,
                                            regs,
                                            *acc,
                                            Value::Array(mid),
                                            at,
                                            span,
                                        ) {
                                            Ok(_) => (),
                                            Err(e) => {
                                                return Err(e);
                                            },
                                        }
                                    },
                                    None => (),
                                }
                            },
                        }
                        i += 1;
                    }
                    Ok(())
                },
                _ => Err(VmError::Eval { kind: EvalErrorKind::DestructureMismatch, span }),
            }
        },
        Pattern::Dict { entries, rest } => {
            match value {
                Value::Dict(ps) => {
                    // Pass 1: resolve every key and check it is present,
                    // before anything is written.
                    proof {
                        crate::value::lemma_m_pairs(ps@);
                    }
                    let mut keys: Vec<String> = Vec::new();
                    let mut i: usize = 0;
                    while i < entries.len()
                        invariant
                            i <= entries@.len(),
                            keys@.len() == i,
                            regs@ == old(regs)@,
                            forall|j: int|
                                0 <= j < i ==> ((#[trigger] entries@[j]).key.0 as int)
                                    < prog.strings@.len() && dict_contains_key(
                                    m_pairs(ps@),
                                    prog.strings@[entries@[j].key.0 as int]@,
                                ),
                        decreases entries@.len() - i,
                    {
                        let sid = entries[i].key;
                        if (sid.0 as usize) >= prog.strings.len() {
                            return Err(VmError::Invariant { at });
                        }
                        let k = prog.strings[sid.0 as usize].clone();
                        match dict_get(ps, &k) {
                            Ok(_) => (),
                            Err(_) => {
                                assert(!dict_contains_key(m_pairs(ps@), k@));
                                return Err(
                                    VmError::Eval { kind: EvalErrorKind::MissingKey, span },
                                );
                            },
                        }
                        assert(dict_contains_key(m_pairs(ps@), k@));
                        keys.push(k);
                        i += 1;
                    }
                    assert(dict_keys_present(*prog, entries@, m_pairs(ps@)));
                    // Pass 2: bind each entry.
                    let mut i: usize = 0;
                    while i < entries.len()
                        invariant
                            i <= entries@.len(),
                            keys@.len() == entries@.len(),
                            regs@.len() == old(regs)@.len(),
                        decreases entries@.len() - i,
                    {
                        let v = match dict_get(ps, &keys[i]) {
                            Ok(v) => v,
                            Err(_) => {
                                return Err(
                                    VmError::Eval { kind: EvalErrorKind::MissingKey, span },
                                );
                            },
                        };
                        match write_access(prog, regs, entries[i].access, v, at, span) {
                            Ok(_) => (),
                            Err(e) => {
                                return Err(e);
                            },
                        }
                        i += 1;
                    }
                    // Rest capture: the entries the pattern did not name.
                    match rest {
                        Some(acc) => {
                            let mut left: Vec<(String, Value)> = Vec::new();
                            let mut i: usize = 0;
                            while i < ps.len()
                                invariant
                                    i <= ps@.len(),
                                    keys@.len() == entries@.len(),
                                    regs@.len() == old(regs)@.len(),
                                decreases ps@.len() - i,
                            {
                                let mut named = false;
                                let mut j: usize = 0;
                                while j < keys.len()
                                    invariant
                                        j <= keys@.len(),
                                    decreases keys@.len() - j,
                                {
                                    if ps[i].0 == keys[j] {
                                        named = true;
                                    }
                                    j += 1;
                                }
                                if !named {
                                    let k = ps[i].0.clone();
                                    let d = ps[i].1.duplicate();
                                    left.push((k, d));
                                }
                                i += 1;
                            }
                            match write_access(prog, regs, *acc, Value::Dict(left), at, span) {
                                Ok(_) => Ok(()),
                                Err(e) => Err(e),
                            }
                        },
                        None => Ok(()),
                    }
                },
                _ => Err(VmError::Eval { kind: EvalErrorKind::DestructureMismatch, span }),
            }
        },
    }
}

/// Looks a span operand up in the span pool.
fn pool_span(prog: &Program, sid: SpanId, at: usize) -> (r: Result<u64, VmError>)
    ensures
        match r {
            Ok(sp) => (sid.0 as int) < prog.span_pool@.len() && sp == prog.span_pool@[sid.0 as int],
            Err(e) => e == (VmError::Invariant { at }) && (sid.0 as int)
                >= prog.span_pool@.len(),
        },
{
    if (sid.0 as usize) < prog.span_pool.len() {
        Ok(prog.span_pool[sid.0 as usize])
    } else {
        Err(VmError::Invariant { at })
    }
}

/// Reads an optional operand; an absent operand reads as the absent
/// value.
fn read_opt(prog: &Program, regs: &Vec<Value>, r: Option<Readable>, at: usize) -> (res: Result<
    Value,
    VmError,
>)
{
    match r {
        Some(x) => read_operand(prog, regs, x, at),
        None => Ok(Value::Nothing),
    }
}

/// Reads the path, combines the current value with the operand, and
/// writes the result back. Errors on the target are attributed to the
/// left-hand side's own span, errors on the combination to the
/// instruction's span.
fn compound_assign(
    prog: &Program,
    regs: &mut Vec<Value>,
    op: BinOp,
    value: Readable,
    lhs_span: SpanId,
    target: AccessId,
    at: usize,
    span: u64,
) -> (res: Result<(), VmError>)
    ensures
        final(regs)@.len() == old(regs)@.len(),
{
    let lspan = match pool_span(prog, lhs_span, at) {
        Ok(sp) => sp,
        Err(e) => {
            return Err(e);
        },
    };
    let cur = match read_access(prog, regs, target, at, lspan) {
        Ok(v) => v,
        Err(e) => {
            return Err(e);
        },
    };
    let v = match read_operand(prog, regs, value, at) {
        Ok(v) => v,
        Err(e) => {
            return Err(e);
        },
    };
    let combined = match eval_binary(op, cur, v) {
        Ok(v) => v,
        Err(k) => {
            return Err(VmError::Eval { kind: k, span });
        },
    };
    write_access(prog, regs, target, combined, at, lspan)
}

/// Rebuilds the container in a register after one construction step.
fn container_reg(out: Writable, regs: &Vec<Value>, at: usize) -> (res: Result<usize, VmError>)
    ensures
        match res {
            Ok(r) => r < regs@.len() && match out {
                Writable::Reg(x) => r == x as usize,
                Writable::Joined => false,
            },
            Err(e) => e == (VmError::Invariant { at }) && match out {
                Writable::Reg(x) => (x as int) >= regs@.len(),
                Writable::Joined => true,
            },
        },
{
    match out {
        Writable::Reg(r) => {
            if (r as usize) < regs.len() {
                Ok(r as usize)
            } else {
                Err(VmError::Invariant { at })
            }
        },
        Writable::Joined => Err(VmError::Invariant { at }),
    }
}


/// Whether an opcode is one of the operator instructions.
pub open spec fn is_operator(isr: Opcode) -> bool {
    match isr {
        Opcode::Add { .. } | Opcode::Sub { .. } | Opcode::Mul { .. } | Opcode::Div {
            ..
        } | Opcode::Gt { .. } | Opcode::Geq { .. } | Opcode::Lt { .. } | Opcode::Leq {
            ..
        } | Opcode::Eq { .. } | Opcode::Neq { .. } | Opcode::In { .. } | Opcode::NotIn {
            ..
        } | Opcode::And { .. } | Opcode::Or { .. } | Opcode::Neg { .. } | Opcode::Pos {
            ..
        } | Opcode::Not { .. } => true,
        _ => false,
    }
}

/// Runs one scope of the program: the instructions `[start, start+len)`.
///
/// The instruction pointer `ip` is scope-relative and stays within
/// `[0, len]` at every step (`len` meaning "fell off the end"); jump
/// targets beyond the scope are a fatal invariant break, so execution
/// never leaves the bounds of the currently active scope. Every backward
/// move of the pointer and every `BeginIter` draws on the iteration
/// budget, so the loop below provably terminates: a runaway program ends
/// in a `TooManyIterations` diagnostic instead of hanging.
///
/// Values the scope produces for joining accumulate in `joined` in
/// emission order; the caller folds them into the scope's product, also
/// when the scope is exited early by a control signal.
#[verifier::loop_isolation(false)]
#[verifier::rlimit(100)]
pub fn run_range(
    prog: &Program,
    regs: &mut Vec<Value>,
    vm: &mut Vm,
    start: usize,
    len: usize,
    iter_items: Option<&Vec<Value>>,
    iter_idx: &mut usize,
    joined: &mut Vec<Value>,
    depth: u64,
) -> (res: Result<Flow, VmError>)
    requires
        start + len <= prog.instructions@.len(),
        prog.spans@.len() == prog.instructions@.len(),
        old(vm).iterations <= old(vm).budget,
    ensures
        final(regs)@.len() == old(regs)@.len(),
        final(vm).budget == old(vm).budget,
        old(vm).iterations <= final(vm).iterations,
        final(vm).iterations <= final(vm).budget,
        res matches Ok(_) ==> final(vm).styles@ == old(vm).styles@,
        len == 1 && is_operator(prog.instructions@[start as int]) ==> match res {
            Ok(f) => (f matches Flow::Done) && operator_step_post(
                *prog,
                prog.instructions@[start as int],
                old(regs)@,
                final(regs)@,
                old(joined)@,
                final(joined)@,
                Ok(()),
                start,
                prog.spans@[start as int],
            ),
            Err(e) => operator_step_post(
                *prog,
                prog.instructions@[start as int],
                old(regs)@,
                final(regs)@,
                old(joined)@,
                final(joined)@,
                Err(e),
                start,
                prog.spans@[start as int],
            ),
        },
    decreases depth, len,
{
    let total = prog.instructions.len();
    let styles_mark = vm.styles.len();
    let mut ip: usize = 0;
    while ip < len
        invariant
            regs@.len() == old(regs)@.len(),
            vm.budget == old(vm).budget,
            old(vm).iterations <= vm.iterations,
            vm.iterations <= vm.budget,
            styles_mark == old(vm).styles@.len(),
            vm.styles@.len() >= styles_mark,
            vm.styles@.subrange(0, styles_mark as int) == old(vm).styles@,
            ip <= len,
            len == 1 && is_operator(prog.instructions@[start as int]) && ip == 0 ==> regs@
                == old(regs)@ && joined@ == old(joined)@,
            len == 1 && is_operator(prog.instructions@[start as int]) && ip == 1
                ==> operator_step_post(
                *prog,
                prog.instructions@[start as int],
                old(regs)@,
                regs@,
                old(joined)@,
                joined@,
                Ok(()),
                start,
                prog.spans@[start as int],
            ),
        decreases vm.budget - vm.iterations, len - ip,
    {
        let at = start + ip;
        let isr = prog.instructions[at];
        let span = prog.spans[at];
        match isr {
            Opcode::Add { .. } | Opcode::Sub { .. } | Opcode::Mul { .. } | Opcode::Div {
                ..
            } | Opcode::Gt { .. } | Opcode::Geq { .. } | Opcode::Lt { .. } | Opcode::Leq {
                ..
            } | Opcode::Eq { .. } | Opcode::Neq { .. } | Opcode::In { .. } | Opcode::NotIn {
                ..
            } | Opcode::And { .. } | Opcode::Or { .. } | Opcode::Neg { .. } | Opcode::Pos {
                ..
            } | Opcode::Not { .. } => {
                match operator_step(prog, regs, joined, isr, at, span) {
                    Ok(_) => (),
                    Err(e) => {
                        return Err(e);
                    },
                }
                ip += 1;
            },
            Opcode::AllocArray { .. } | Opcode::Push { .. } | Opcode::AllocDict {
                ..
            } | Opcode::Insert { .. } | Opcode::AllocArgs { .. } | Opcode::PushArg {
                ..
            } | Opcode::InsertArg { .. } | Opcode::SpreadArg { .. } | Opcode::Spread {
                ..
            } => {
                construct_step(prog, regs, joined, isr, at, span)?;
                ip += 1;
            },
            Opcode::Delimited { .. } | Opcode::Attach { .. } | Opcode::Frac {
                ..
            } | Opcode::Root { .. } | Opcode::Ref { .. } | Opcode::Strong {
                ..
            } | Opcode::Emph { .. } | Opcode::Heading { .. } | Opcode::ListItem {
                ..
            } | Opcode::EnumItem { .. } | Opcode::TermItem { .. } | Opcode::Equation {
                ..
            } | Opcode::PointerMarker { .. } | Opcode::Select { .. } => {
                content_step(prog, regs, joined, isr, at, span)?;
                ip += 1;
            },
            Opcode::Call { closure, args, math: _, trailing_comma: _, callee_span, out } => {
                let cspan = pool_span(prog, callee_span, at)?;
                let callee = read_access(prog, regs, closure, at, cspan)?;
                let argv = read_operand(prog, regs, args, at)?;
                if depth == 0 {
                    return Err(VmError::Eval { kind: EvalErrorKind::TooDeeplyNested, span });
                }
                let result = call_function(prog, vm, callee, argv, at, span, cspan, depth - 1)?;
                write_operand(regs, joined, out, result, at)?;
                ip += 1;
            },
            Opcode::While { len: l, content, out } => {
                let l = l as usize;
                if l > len - ip - 1 {
                    return Err(VmError::Invariant { at });
                }
                let body = start + ip + 1;
                let mut buf: Vec<Value> = Vec::new();
                let mut done = false;
                let mut ret: Option<Option<Value>> = None;
                let ghost entered = vm.iterations;
                let ghost styles_entered = vm.styles@;
                while !done
                    invariant
                        body + l <= prog.instructions@.len(),
                        regs@.len() == old(regs)@.len(),
                        vm.budget == old(vm).budget,
                        old(vm).iterations <= vm.iterations,
                        entered <= vm.iterations,
                        vm.iterations <= vm.budget,
                        vm.styles@ == styles_entered,
                    decreases vm.budget - vm.iterations, (if done { 0int } else { 1int }),
                {
                    let f = run_range(
                        prog,
                        regs,
                        vm,
                        body,
                        l,
                        iter_items,
                        iter_idx,
                        &mut buf,
                        depth,
                    )?;
                    match f {
                        Flow::Continue => {
                            match vm.begin_iteration() {
                                Ok(_) => (),
                                Err(k) => {
                                    return Err(VmError::Eval { kind: k, span });
                                },
                            }
                        },
                        Flow::Done => {
                            done = true;
                        },
                        Flow::Break => {
                            done = true;
                        },
                        Flow::Return(v) => {
                            ret = Some(v);
                            done = true;
                        },
                    }
                }
                finish_scope(regs, joined, buf, content, out, at)?;
                match ret {
                    Some(v) => {
                        vm.styles.truncate(styles_mark);
                        return Ok(Flow::Return(v));
                    },
                    None => (),
                }
                ip = ip + 1 + l;
            },
            Opcode::Iter { len: l, iterable, content, out } => {
                let l = l as usize;
                if l > len - ip - 1 {
                    return Err(VmError::Invariant { at });
                }
                let body = start + ip + 1;
                let iv = read_operand(prog, regs, iterable, at)?;
                let items = match make_iter_items(&iv) {
                    Ok(items) => items,
                    Err(k) => {
                        return Err(VmError::Eval { kind: k, span });
                    },
                };
                let mut buf: Vec<Value> = Vec::new();
                let mut sub_idx: usize = 0;
                let mut done = false;
                let mut ret: Option<Option<Value>> = None;
                let ghost entered = vm.iterations;
                let ghost styles_entered = vm.styles@;
                while !done
                    invariant
                        body + l <= prog.instructions@.len(),
                        regs@.len() == old(regs)@.len(),
                        vm.budget == old(vm).budget,
                        old(vm).iterations <= vm.iterations,
                        entered <= vm.iterations,
                        vm.iterations <= vm.budget,
                        vm.styles@ == styles_entered,
                    decreases vm.budget - vm.iterations, (if done { 0int } else { 1int }),
                {
                    let f = run_range(
                        prog,
                        regs,
                        vm,
                        body,
                        l,
                        Some(&items),
                        &mut sub_idx,
                        &mut buf,
                        depth,
                    )?;
                    match f {
                        Flow::Continue => {
                            match vm.begin_iteration() {
                                Ok(_) => (),
                                Err(k) => {
                                    return Err(VmError::Eval { kind: k, span });
                                },
                            }
                        },
                        Flow::Done => {
                            done = true;
                        },
                        Flow::Break => {
                            done = true;
                        },
                        Flow::Return(v) => {
                            ret = Some(v);
                            done = true;
                        },
                    }
                }
                finish_scope(regs, joined, buf, content, out, at)?;
                match ret {
                    Some(v) => {
                        vm.styles.truncate(styles_mark);
                        return Ok(Flow::Return(v));
                    },
                    None => (),
                }
                ip = ip + 1 + l;
            },
            Opcode::Enter { len: l, content, out } => {
                let l = l as usize;
                if l > len - ip - 1 {
                    return Err(VmError::Invariant { at });
                }
                let body = start + ip + 1;
                let mut buf: Vec<Value> = Vec::new();
                let f = run_range(
                    prog,
                    regs,
                    vm,
                    body,
                    l,
                    iter_items,
                    iter_idx,
                    &mut buf,
                    depth,
                )?;
                finish_scope(regs, joined, buf, content, out, at)?;
                match f {
                    Flow::Done => (),
                    other => {
                        vm.styles.truncate(styles_mark);
                        return Ok(other);
                    },
                }
                ip = ip + 1 + l;
            },
            Opcode::Next { out } => {
                match iter_items {
                    None => {
                        return Err(VmError::Invariant { at });
                    },
                    Some(items) => match next_item(items, iter_idx) {
                        Some(v) => {
                            write_operand(regs, joined, out, v, at)?;
                            ip += 1;
                        },
                        None => {
                            vm.styles.truncate(styles_mark);
                            return Ok(Flow::Done);
                        },
                    },
                }
            },
            Opcode::Continue => {
                vm.styles.truncate(styles_mark);
                return Ok(Flow::Continue);
            },
            Opcode::Break => {
                vm.styles.truncate(styles_mark);
                return Ok(Flow::Break);
            },
            Opcode::Return => {
                vm.styles.truncate(styles_mark);
                return Ok(Flow::Return(None));
            },
            Opcode::ReturnVal { value } => {
                let v = read_operand(prog, regs, value, at)?;
                vm.styles.truncate(styles_mark);
                return Ok(Flow::Return(Some(v)));
            },
            Opcode::Jump { instruction } => {
                let t = instruction.0 as usize;
                if t > len {
                    return Err(VmError::Invariant { at });
                }
                if t <= ip {
                    match vm.begin_iteration() {
                        Ok(_) => (),
                        Err(k) => {
                            return Err(VmError::Eval { kind: k, span });
                        },
                    }
                }
                ip = t;
            },
            Opcode::JumpTop => {
                match vm.begin_iteration() {
                    Ok(_) => (),
                    Err(k) => {
                        return Err(VmError::Eval { kind: k, span });
                    },
                }
                ip = 0;
            },
            Opcode::JumpIf { condition, instruction } => {
                let c = read_operand(prog, regs, condition, at)?;
                let b = match c {
                    Value::Bool(b) => b,
                    _ => {
                        return Err(VmError::Eval { kind: EvalErrorKind::TypeMismatch, span });
                    },
                };
                if b {
                    let t = instruction.0 as usize;
                    if t > len {
                        return Err(VmError::Invariant { at });
                    }
                    if t <= ip {
                        match vm.begin_iteration() {
                            Ok(_) => (),
                            Err(k) => {
                                return Err(VmError::Eval { kind: k, span });
                            },
                        }
                    }
                    ip = t;
                } else {
                    ip += 1;
                }
            },
            Opcode::JumpIfNot { condition, instruction } => {
                let c = read_operand(prog, regs, condition, at)?;
                let b = match c {
                    Value::Bool(b) => b,
                    _ => {
                        return Err(VmError::Eval { kind: EvalErrorKind::TypeMismatch, span });
                    },
                };
                if !b {
                    let t = instruction.0 as usize;
                    if t > len {
                        return Err(VmError::Invariant { at });
                    }
                    if t <= ip {
                        match vm.begin_iteration() {
                            Ok(_) => (),
                            Err(k) => {
                                return Err(VmError::Eval { kind: k, span });
                            },
                        }
                    }
                    ip = t;
                } else {
                    ip += 1;
                }
            },
            Opcode::BeginIter => {
                match vm.begin_iteration() {
                    Ok(_) => (),
                    Err(k) => {
                        return Err(VmError::Eval { kind: k, span });
                    },
                }
                ip += 1;
            },
            _ => {
                misc_step(prog, regs, vm, joined, isr, at, span)?;
                ip += 1;
            },
        }
    }
    vm.styles.truncate(styles_mark);
    Ok(Flow::Done)
}

/// Exactly what one operator instruction (binary or unary) does, by its
/// opcode: `binary_post`/`unary_post` with the opcode's own operands.
pub open spec fn operator_step_post(
    prog: Program,
    isr: Opcode,
    pre_regs: Seq<Value>,
    post_regs: Seq<Value>,
    pre_joined: Seq<Value>,
    post_joined: Seq<Value>,
    res: Result<(), VmError>,
    at: usize,
    span: u64,
) -> bool {
    match isr {
        Opcode::Add { lhs, rhs, out } => binary_post(prog, BinOp::Add, lhs, rhs, out, pre_regs, post_regs, pre_joined, post_joined, res, at, span),
        Opcode::Sub { lhs, rhs, out } => binary_post(prog, BinOp::Sub, lhs, rhs, out, pre_regs, post_regs, pre_joined, post_joined, res, at, span),
        Opcode::Mul { lhs, rhs, out } => binary_post(prog, BinOp::Mul, lhs, rhs, out, pre_regs, post_regs, pre_joined, post_joined, res, at, span),
        Opcode::Div { lhs, rhs, out } => binary_post(prog, BinOp::Div, lhs, rhs, out, pre_regs, post_regs, pre_joined, post_joined, res, at, span),
        Opcode::Gt { lhs, rhs, out } => binary_post(prog, BinOp::Gt, lhs, rhs, out, pre_regs, post_regs, pre_joined, post_joined, res, at, span),
        Opcode::Geq { lhs, rhs, out } => binary_post(prog, BinOp::Geq, lhs, rhs, out, pre_regs, post_regs, pre_joined, post_joined, res, at, span),
        Opcode::Lt { lhs, rhs, out } => binary_post(prog, BinOp::Lt, lhs, rhs, out, pre_regs, post_regs, pre_joined, post_joined, res, at, span),
        Opcode::Leq { lhs, rhs, out } => binary_post(prog, BinOp::Leq, lhs, rhs, out, pre_regs, post_regs, pre_joined, post_joined, res, at, span),
        Opcode::Eq { lhs, rhs, out } => binary_post(prog, BinOp::Eq, lhs, rhs, out, pre_regs, post_regs, pre_joined, post_joined, res, at, span),
        Opcode::Neq { lhs, rhs, out } => binary_post(prog, BinOp::Neq, lhs, rhs, out, pre_regs, post_regs, pre_joined, post_joined, res, at, span),
        Opcode::In { lhs, rhs, out } => binary_post(prog, BinOp::In, lhs, rhs, out, pre_regs, post_regs, pre_joined, post_joined, res, at, span),
        Opcode::NotIn { lhs, rhs, out } => binary_post(prog, BinOp::NotIn, lhs, rhs, out, pre_regs, post_regs, pre_joined, post_joined, res, at, span),
        Opcode::And { lhs, rhs, out } => binary_post(prog, BinOp::And, lhs, rhs, out, pre_regs, post_regs, pre_joined, post_joined, res, at, span),
        Opcode::Or { lhs, rhs, out } => binary_post(prog, BinOp::Or, lhs, rhs, out, pre_regs, post_regs, pre_joined, post_joined, res, at, span),
        Opcode::Neg { value, out } => unary_post(prog, UnOp::Neg, value, out, pre_regs, post_regs, pre_joined, post_joined, res, at, span),
        Opcode::Pos { value, out } => unary_post(prog, UnOp::Pos, value, out, pre_regs, post_regs, pre_joined, post_joined, res, at, span),
        Opcode::Not { value, out } => unary_post(prog, UnOp::Not, value, out, pre_regs, post_regs, pre_joined, post_joined, res, at, span),
        _ => res == Err::<(), VmError>(VmError::Invariant { at }) && post_regs == pre_regs
            && post_joined == pre_joined,
    }
}

/// Executes one operator instruction: a pure function of its operands.
#[verifier::loop_isolation(false)]
fn operator_step(
    prog: &Program,
    regs: &mut Vec<Value>,
    joined: &mut Vec<Value>,
    isr: Opcode,
    at: usize,
    span: u64,
) -> (res: Result<(), VmError>)
    ensures
        final(regs)@.len() == old(regs)@.len(),
        operator_step_post(
            *prog,
            isr,
            old(regs)@,
            final(regs)@,
            old(joined)@,
            final(joined)@,
            res,
            at,
            span,
        ),
{
    match isr {
            Opcode::Add { lhs, rhs, out } => {
                binary_step(prog, regs, joined, BinOp::Add, lhs, rhs, out, at, span)?;
            },
            Opcode::Sub { lhs, rhs, out } => {
                binary_step(prog, regs, joined, BinOp::Sub, lhs, rhs, out, at, span)?;
            },
            Opcode::Mul { lhs, rhs, out } => {
                binary_step(prog, regs, joined, BinOp::Mul, lhs, rhs, out, at, span)?;
            },
            Opcode::Div { lhs, rhs, out } => {
                binary_step(prog, regs, joined, BinOp::Div, lhs, rhs, out, at, span)?;
            },
            Opcode::Gt { lhs, rhs, out } => {
                binary_step(prog, regs, joined, BinOp::Gt, lhs, rhs, out, at, span)?;
            },
            Opcode::Geq { lhs, rhs, out } => {
                binary_step(prog, regs, joined, BinOp::Geq, lhs, rhs, out, at, span)?;
            },
            Opcode::Lt { lhs, rhs, out } => {
                binary_step(prog, regs, joined, BinOp::Lt, lhs, rhs, out, at, span)?;
            },
            Opcode::Leq { lhs, rhs, out } => {
                binary_step(prog, regs, joined, BinOp::Leq, lhs, rhs, out, at, span)?;
            },
            Opcode::Eq { lhs, rhs, out } => {
                binary_step(prog, regs, joined, BinOp::Eq, lhs, rhs, out, at, span)?;
            },
            Opcode::Neq { lhs, rhs, out } => {
                binary_step(prog, regs, joined, BinOp::Neq, lhs, rhs, out, at, span)?;
            },
            Opcode::In { lhs, rhs, out } => {
                binary_step(prog, regs, joined, BinOp::In, lhs, rhs, out, at, span)?;
            },
            Opcode::NotIn { lhs, rhs, out } => {
                binary_step(prog, regs, joined, BinOp::NotIn, lhs, rhs, out, at, span)?;
            },
            Opcode::And { lhs, rhs, out } => {
                binary_step(prog, regs, joined, BinOp::And, lhs, rhs, out, at, span)?;
            },
            Opcode::Or { lhs, rhs, out } => {
                binary_step(prog, regs, joined, BinOp::Or, lhs, rhs, out, at, span)?;
            },
            Opcode::Neg { value, out } => {
                unary_step(prog, regs, joined, UnOp::Neg, value, out, at, span)?;
            },
            Opcode::Pos { value, out } => {
                unary_step(prog, regs, joined, UnOp::Pos, value, out, at, span)?;
            },
            Opcode::Not { value, out } => {
                unary_step(prog, regs, joined, UnOp::Not, value, out, at, span)?;
            },
        _ => {
            return Err(VmError::Invariant { at });
        },
    }
    Ok(())
}

/// Executes one assignment, styling, module or instantiation instruction.
#[verifier::loop_isolation(false)]
fn misc_step(
    prog: &Program,
    regs: &mut Vec<Value>,
    vm: &mut Vm,
    joined: &mut Vec<Value>,
    isr: Opcode,
    at: usize,
    span: u64,
) -> (res: Result<(), VmError>)
    ensures
        final(regs)@.len() == old(regs)@.len(),
        final(vm).budget == old(vm).budget,
        final(vm).iterations == old(vm).iterations,
        final(vm).styles@.len() >= old(vm).styles@.len(),
        final(vm).styles@.subrange(0, old(vm).styles@.len() as int) == old(vm).styles@,
        match isr {
            Opcode::CopyIsr { value, out } => match res {
                Ok(_) => match operand_model(*prog, old(regs)@, value) {
                    Some(w) => match out {
                        Writable::Reg(r) => (r as int) < old(regs)@.len() && m_seq(
                            final(regs)@,
                        ) == m_seq(old(regs)@).update(r as int, w) && final(joined)@
                            == old(joined)@,
                        Writable::Joined => m_seq(final(joined)@) == m_seq(
                            old(joined)@,
                        ).push(w) && final(regs)@ == old(regs)@,
                    },
                    None => false,
                },
                Err(e) => (e matches VmError::Invariant { .. }) && final(regs)@ == old(
                    regs,
                )@ && final(joined)@ == old(joined)@,
            },
            _ => true,
        },
{
    match isr {
            Opcode::CopyIsr { value, out } => {
                let v = read_operand(prog, regs, value, at)?;
                let ghost pre = regs@;
                match write_operand(regs, joined, out, v, at) {
                    Ok(_) => {
                        proof {
                            match out {
                                Writable::Reg(x) => {
                                    lemma_m_seq_update(pre, x as int, v);
                                },
                                Writable::Joined => {
                                    lemma_m_seq_push(old(joined)@, v);
                                },
                            }
                        }
                    },
                    Err(e) => {
                        return Err(e);
                    },
                }
            },
            Opcode::ReadAccess { access, out } => {
                let v = read_access(prog, regs, access, at, span)?;
                write_operand(regs, joined, out, v, at)?;
            },
            Opcode::Field { access, out } => {
                let v = read_access(prog, regs, access, at, span)?;
                write_operand(regs, joined, out, v, at)?;
            },
            Opcode::NoneVal { out } => {
                write_operand(regs, joined, out, Value::Nothing, at)?;
            },
            Opcode::AutoVal { out } => {
                write_operand(regs, joined, out, Value::Auto, at)?;
            },
            Opcode::Assign { value, out } => {
                let v = read_operand(prog, regs, value, at)?;
                write_access(prog, regs, out, v, at, span)?;
            },
            Opcode::AddAssign { value, lhs_span, out } => {
                compound_assign(prog, regs, BinOp::Add, value, lhs_span, out, at, span)?;
            },
            Opcode::SubAssign { value, lhs_span, out } => {
                compound_assign(prog, regs, BinOp::Sub, value, lhs_span, out, at, span)?;
            },
            Opcode::MulAssign { value, lhs_span, out } => {
                compound_assign(prog, regs, BinOp::Mul, value, lhs_span, out, at, span)?;
            },
            Opcode::DivAssign { value, lhs_span, out } => {
                compound_assign(prog, regs, BinOp::Div, value, lhs_span, out, at, span)?;
            },
            Opcode::Destructure { value, out } => {
                let v = read_operand(prog, regs, value, at)?;
                destructure(prog, regs, out, &v, at, span)?;
            },
            Opcode::SetRule { target, args } => {
                let t = read_operand(prog, regs, target, at)?;
                let a = read_operand(prog, regs, args, at)?;
                vm.styles.push(StyleRule::SetRule { target: t, args: a });
                proof {
                    assert(vm.styles@.subrange(0, old(vm).styles@.len() as int) =~= old(
                        vm,
                    ).styles@);
                }
            },
            Opcode::Show { selector, transform, selector_span } => {
                let sspan = pool_span(prog, selector_span, at)?;
                let sel = match selector {
                    Some(r) => Some(read_operand(prog, regs, r, at)?),
                    None => None,
                };
                let t = read_operand(prog, regs, transform, at)?;
                vm.styles.push(StyleRule::ShowRule { selector: sel, transform: t, span: sspan });
                proof {
                    assert(vm.styles@.subrange(0, old(vm).styles@.len() as int) =~= old(
                        vm,
                    ).styles@);
                }
            },
            Opcode::ShowSet { selector, target, args, selector_span } => {
                let sspan = pool_span(prog, selector_span, at)?;
                let sel = match selector {
                    Some(r) => Some(read_operand(prog, regs, r, at)?),
                    None => None,
                };
                let t = read_operand(prog, regs, target, at)?;
                let a = read_operand(prog, regs, args, at)?;
                vm.styles.push(
                    StyleRule::ShowSetRule { selector: sel, target: t, args: a, span: sspan },
                );
                proof {
                    assert(vm.styles@.subrange(0, old(vm).styles@.len() as int) =~= old(
                        vm,
                    ).styles@);
                }
            },
            Opcode::Contextual { closure, out } => {
                let v = read_operand(prog, regs, closure, at)?;
                match v {
                    Value::Func { closure: c, contextual: _, captured, defaults } => {
                        write_operand(
                            regs,
                            joined,
                            out,
                            Value::Func { closure: c, contextual: true, captured, defaults },
                            at,
                        )?;
                    },
                    _ => {
                        return Err(VmError::Eval { kind: EvalErrorKind::NotCallable, span });
                    },
                }
            },
            Opcode::InstantiateModule { path, module, out } => {
                let pv = read_operand(prog, regs, path, at)?;
                match pv {
                    Value::Str(_) => (),
                    _ => {
                        return Err(VmError::Eval { kind: EvalErrorKind::TypeMismatch, span });
                    },
                }
                if (module.0 as usize) >= prog.modules.len() {
                    return Err(VmError::Invariant { at });
                }
                match &prog.modules[module.0 as usize] {
                    Some(mv) => {
                        let d = mv.duplicate();
                        write_operand(regs, joined, out, d, at)?;
                    },
                    None => {
                        return Err(
                            VmError::Eval { kind: EvalErrorKind::ModuleLoadFailed, span },
                        );
                    },
                }
            },
            Opcode::Include { path, out } => {
                let pv = read_operand(prog, regs, path, at)?;
                let key = match pv {
                    Value::Str(k) => k,
                    _ => {
                        return Err(VmError::Eval { kind: EvalErrorKind::TypeMismatch, span });
                    },
                };
                let mut found: Option<Value> = None;
                let mut j: usize = 0;
                while j < prog.includes.len()
                    invariant
                        j <= prog.includes@.len(),
                        regs@.len() == old(regs)@.len(),
                    decreases prog.includes@.len() - j,
                {
                    if prog.includes[j].0 == key {
                        found = Some(prog.includes[j].1.duplicate());
                    }
                    j += 1;
                }
                match found {
                    Some(v) => {
                        write_operand(regs, joined, out, v, at)?;
                    },
                    None => {
                        return Err(VmError::Eval { kind: EvalErrorKind::IncludeFailed, span });
                    },
                }
            },
            Opcode::Instantiate { closure, out } => {
                let v = instantiate(prog, regs, closure, at)?;
                write_operand(regs, joined, out, v, at)?;
            },
        _ => {
            return Err(VmError::Invariant { at });
        },
    }
    Ok(())
}

/// Executes one value-construction instruction on the container under
/// construction. A failing step leaves the container (and everything
/// else) unchanged; a `Spread` does exactly what `spec_spread` says for
/// the container held in its destination register, and its evaluation
/// error carries the instruction's span.
#[verifier::loop_isolation(false)]
fn construct_step(
    prog: &Program,
    regs: &mut Vec<Value>,
    joined: &mut Vec<Value>,
    isr: Opcode,
    at: usize,
    span: u64,
) -> (res: Result<(), VmError>)
    ensures
        final(regs)@.len() == old(regs)@.len(),
        res is Err ==> final(regs)@ == old(regs)@ && final(joined)@ == old(joined)@,
        match isr {
            Opcode::Spread { value, out } => match res {
                Ok(_) => match (operand_model(*prog, old(regs)@, value), out) {
                    (Some(v), Writable::Reg(r)) => (r as int) < old(regs)@.len()
                        && match spec_spread(m(old(regs)@[r as int]), v) {
                        Ok(c) => m_seq(final(regs)@) == m_seq(old(regs)@).update(
                            r as int,
                            c,
                        ) && final(joined)@ == old(joined)@,
                        Err(_) => false,
                    },
                    _ => false,
                },
                Err(VmError::Eval { kind, span: s }) => s == span && match (
                    operand_model(*prog, old(regs)@, value),
                    out,
                ) {
                    (Some(v), Writable::Reg(r)) => (r as int) < old(regs)@.len()
                        && spec_spread(m(old(regs)@[r as int]), v) == Err::<
                        Mv,
                        EvalErrorKind,
                    >(kind),
                    _ => false,
                },
                Err(VmError::Invariant { at: a }) => a == at,
            },
            _ => true,
        },
{
    match isr {
            Opcode::AllocArray { capacity: _, out } => {
                write_operand(regs, joined, out, Value::Array(Vec::new()), at)?;
            },
            Opcode::Push { value, out } => {
                let v = read_operand(prog, regs, value, at)?;
                let r = container_reg(out, regs, at)?;
                let cur = regs[r].duplicate();
                match cur {
                    Value::Array(mut els) => {
                        els.push(v);
                        regs.set(r, Value::Array(els));
                    },
                    _ => {
                        return Err(VmError::Invariant { at });
                    },
                }
            },
            Opcode::AllocDict { capacity: _, out } => {
                write_operand(regs, joined, out, Value::Dict(Vec::new()), at)?;
            },
            Opcode::Insert { key, value, out } => {
                let kv = read_operand(prog, regs, key, at)?;
                let k = match kv {
                    Value::Str(k) => k,
                    _ => {
                        return Err(VmError::Eval { kind: EvalErrorKind::TypeMismatch, span });
                    },
                };
                let v = read_operand(prog, regs, value, at)?;
                let r = container_reg(out, regs, at)?;
                let cur = regs[r].duplicate();
                match cur {
                    Value::Dict(mut ps) => {
                        dict_insert(&mut ps, k, v);
                        regs.set(r, Value::Dict(ps));
                    },
                    _ => {
                        return Err(VmError::Invariant { at });
                    },
                }
            },
            Opcode::AllocArgs { capacity: _, out } => {
                write_operand(regs, joined, out, Value::Args(Vec::new()), at)?;
            },
            Opcode::PushArg { value, value_span, out } => {
                let _vspan = pool_span(prog, value_span, at)?;
                let v = read_operand(prog, regs, value, at)?;
                let r = container_reg(out, regs, at)?;
                let cur = regs[r].duplicate();
                match cur {
                    Value::Args(mut items) => {
                        items.push((None, v));
                        regs.set(r, Value::Args(items));
                    },
                    _ => {
                        return Err(VmError::Invariant { at });
                    },
                }
            },
            Opcode::InsertArg { key, value, value_span, out } => {
                let _vspan = pool_span(prog, value_span, at)?;
                if (key.0 as usize) >= prog.strings.len() {
                    return Err(VmError::Invariant { at });
                }
                let k = prog.strings[key.0 as usize].clone();
                let v = read_operand(prog, regs, value, at)?;
                let r = container_reg(out, regs, at)?;
                let cur = regs[r].duplicate();
                match cur {
                    Value::Args(mut items) => {
                        items.push((Some(k), v));
                        regs.set(r, Value::Args(items));
                    },
                    _ => {
                        return Err(VmError::Invariant { at });
                    },
                }
            },
            Opcode::SpreadArg { value, value_span, out } => {
                let vspan = pool_span(prog, value_span, at)?;
                let v = read_operand(prog, regs, value, at)?;
                let r = container_reg(out, regs, at)?;
                let cur = regs[r].duplicate();
                match spread_into(cur, v) {
                    Ok(c) => {
                        regs.set(r, c);
                    },
                    Err(k) => {
                        return Err(VmError::Eval { kind: k, span: vspan });
                    },
                }
            },
            Opcode::Spread { value, out } => {
                let v = read_operand(prog, regs, value, at)?;
                let r = container_reg(out, regs, at)?;
                let cur = regs[r].duplicate();
                proof {
                    assert(operand_model(*prog, old(regs)@, value) == Some(m(v)));
                    assert(m(cur) == m(old(regs)@[r as int]));
                }
                match spread_into(cur, v) {
                    Ok(c) => {
                        let ghost pre = regs@;
                        proof {
                            assert(spec_spread(m(cur), m(v)) == Ok::<Mv, EvalErrorKind>(
                                m(c),
                            ));
                        }
                        regs.set(r, c);
                        proof {
                            lemma_m_seq_update(pre, r as int, c);
                        }
                    },
                    Err(k) => {
                        assert(spec_spread(m(cur), m(v)) == Err::<Mv, EvalErrorKind>(k));
                        return Err(VmError::Eval { kind: k, span });
                    },
                }
            },
        _ => {
            return Err(VmError::Invariant { at });
        },
    }
    Ok(())
}

/// Executes one content or math builder: wraps computed operands into a structured node.
#[verifier::loop_isolation(false)]
fn content_step(
    prog: &Program,
    regs: &mut Vec<Value>,
    joined: &mut Vec<Value>,
    isr: Opcode,
    at: usize,
    span: u64,
) -> (res: Result<(), VmError>)
    ensures
        final(regs)@.len() == old(regs)@.len(),
{
    match isr {
            Opcode::Delimited { left, body, right, out } => {
                let l = read_operand(prog, regs, left, at)?;
                let b = read_operand(prog, regs, body, at)?;
                let rr = read_operand(prog, regs, right, at)?;
                let mut ch: Vec<Value> = Vec::new();
                ch.push(l);
                ch.push(b);
                ch.push(rr);
                write_operand(regs, joined, out, Value::Elem(Tag::Delimited, ch), at)?;
            },
            Opcode::Attach { base, top, bottom, out } => {
                let b = read_operand(prog, regs, base, at)?;
                let t = read_opt(prog, regs, top, at)?;
                let bo = read_opt(prog, regs, bottom, at)?;
                let mut ch: Vec<Value> = Vec::new();
                ch.push(b);
                ch.push(t);
                ch.push(bo);
                write_operand(regs, joined, out, Value::Elem(Tag::Attach, ch), at)?;
            },
            Opcode::Frac { numerator, denominator, out } => {
                let n = read_operand(prog, regs, numerator, at)?;
                let d = read_operand(prog, regs, denominator, at)?;
                let mut ch: Vec<Value> = Vec::new();
                ch.push(n);
                ch.push(d);
                write_operand(regs, joined, out, Value::Elem(Tag::Frac, ch), at)?;
            },
            Opcode::Root { degree, radicand, out } => {
                let d = read_opt(prog, regs, degree, at)?;
                let rr = read_operand(prog, regs, radicand, at)?;
                let mut ch: Vec<Value> = Vec::new();
                ch.push(d);
                ch.push(rr);
                write_operand(regs, joined, out, Value::Elem(Tag::Root, ch), at)?;
            },
            Opcode::Ref { label, supplement, out } => {
                if (label.0 as usize) >= prog.labels.len() {
                    return Err(VmError::Invariant { at });
                }
                let lbl = prog.labels[label.0 as usize];
                let sup = read_operand(prog, regs, supplement, at)?;
                let mut ch: Vec<Value> = Vec::new();
                ch.push(Value::Label(lbl));
                ch.push(sup);
                write_operand(regs, joined, out, Value::Elem(Tag::RefNode, ch), at)?;
            },
            Opcode::Strong { value, out } => {
                let v = read_operand(prog, regs, value, at)?;
                let mut ch: Vec<Value> = Vec::new();
                ch.push(v);
                write_operand(regs, joined, out, Value::Elem(Tag::Strong, ch), at)?;
            },
            Opcode::Emph { value, out } => {
                let v = read_operand(prog, regs, value, at)?;
                let mut ch: Vec<Value> = Vec::new();
                ch.push(v);
                write_operand(regs, joined, out, Value::Elem(Tag::Emph, ch), at)?;
            },
            Opcode::Heading { value, level, out } => {
                if level == 0 {
                    return Err(VmError::Invariant { at });
                }
                let v = read_operand(prog, regs, value, at)?;
                let mut ch: Vec<Value> = Vec::new();
                ch.push(v);
                ch.push(Value::Int(level as i64));
                write_operand(regs, joined, out, Value::Elem(Tag::Heading, ch), at)?;
            },
            Opcode::ListItem { value, out } => {
                let v = read_operand(prog, regs, value, at)?;
                let mut ch: Vec<Value> = Vec::new();
                ch.push(v);
                write_operand(regs, joined, out, Value::Elem(Tag::ListItem, ch), at)?;
            },
            Opcode::EnumItem { value, number, out } => {
                let v = read_operand(prog, regs, value, at)?;
                let n = match number {
                    Some(n) => {
                        if n == 0 {
                            return Err(VmError::Invariant { at });
                        }
                        Value::Int(n as i64)
                    },
                    None => Value::Nothing,
                };
                let mut ch: Vec<Value> = Vec::new();
                ch.push(v);
                ch.push(n);
                write_operand(regs, joined, out, Value::Elem(Tag::EnumItem, ch), at)?;
            },
            Opcode::TermItem { term, description, out } => {
                let t = read_operand(prog, regs, term, at)?;
                let d = read_operand(prog, regs, description, at)?;
                let mut ch: Vec<Value> = Vec::new();
                ch.push(t);
                ch.push(d);
                write_operand(regs, joined, out, Value::Elem(Tag::TermItem, ch), at)?;
            },
            Opcode::Equation { value, block, out } => {
                let v = read_operand(prog, regs, value, at)?;
                let mut ch: Vec<Value> = Vec::new();
                ch.push(v);
                ch.push(Value::Bool(block));
                write_operand(regs, joined, out, Value::Elem(Tag::Equation, ch), at)?;
            },
            Opcode::PointerMarker { marker: _ } => {
            },
            Opcode::Select { condition, true_, false_, out } => {
                let c = read_operand(prog, regs, condition, at)?;
                let tv = read_operand(prog, regs, true_, at)?;
                let fv = read_operand(prog, regs, false_, at)?;
                let b = match c {
                    Value::Bool(b) => b,
                    _ => {
                        return Err(VmError::Eval { kind: EvalErrorKind::TypeMismatch, span });
                    },
                };
                write_operand(regs, joined, out, if b { tv } else { fv }, at)?;
            },
        _ => {
            return Err(VmError::Invariant { at });
        },
    }
    Ok(())
}

/// Instantiates a closure template: captures the current values of its
/// captured operands and evaluates its parameter defaults, now, not at
/// call time.
fn instantiate(prog: &Program, regs: &Vec<Value>, id: ClosureId, at: usize) -> (res: Result<
    Value,
    VmError,
>)
{
    if (id.0 as usize) >= prog.closures.len() {
        return Err(VmError::Invariant { at });
    }
    let clos = &prog.closures[id.0 as usize];
    let mut captured: Vec<Value> = Vec::new();
    let mut i: usize = 0;
    while i < clos.captures.len()
        decreases clos.captures@.len() - i,
    {
        let v = match read_operand(prog, regs, clos.captures[i].0, at) {
            Ok(v) => v,
            Err(e) => {
                return Err(e);
            },
        };
        captured.push(v);
        i += 1;
    }
    let mut defaults: Vec<Option<Value>> = Vec::new();
    let mut i: usize = 0;
    while i < clos.params.len()
        decreases clos.params@.len() - i,
    {
        match clos.params[i].default {
            Some(r) => {
                let v = match read_operand(prog, regs, r, at) {
                    Ok(v) => v,
                    Err(e) => {
                        return Err(e);
                    },
                };
                defaults.push(Some(v));
            },
            None => {
                defaults.push(None);
            },
        }
        i += 1;
    }
    Ok(Value::Func { closure: id.0, contextual: false, captured, defaults })
}

/// Calls a callable value with a materialized argument bundle: binds the
/// arguments to a fresh frame and runs the closure body as a function
/// boundary, which consumes `Return` signals.
#[verifier::loop_isolation(false)]
fn call_function(
    prog: &Program,
    vm: &mut Vm,
    callee: Value,
    argv: Value,
    at: usize,
    span: u64,
    cspan: u64,
    depth: u64,
) -> (res: Result<Value, VmError>)
    requires
        prog.spans@.len() == prog.instructions@.len(),
        old(vm).iterations <= old(vm).budget,
    ensures
        final(vm).budget == old(vm).budget,
        old(vm).iterations <= final(vm).iterations,
        final(vm).iterations <= final(vm).budget,
        res matches Ok(_) ==> final(vm).styles@ == old(vm).styles@,
    decreases depth, prog.instructions@.len() + 1nat,
{
    let (cid, captured, defaults) = match callee {
        Value::Func { closure, contextual: _, captured, defaults } => (
            closure,
            captured,
            defaults,
        ),
        _ => {
            return Err(VmError::Eval { kind: EvalErrorKind::NotCallable, span: cspan });
        },
    };
    let items = match argv {
        Value::Args(items) => items,
        _ => {
            return Err(VmError::Eval { kind: EvalErrorKind::TypeMismatch, span });
        },
    };
    if (cid as usize) >= prog.closures.len() {
        return Err(VmError::Invariant { at });
    }
    let clos = &prog.closures[cid as usize];
    if captured.len() != clos.captures.len() || defaults.len() != clos.params.len() {
        return Err(VmError::Invariant { at });
    }
    let bstart = clos.start as usize;
    let blen = clos.len as usize;
    if bstart > prog.instructions.len() || blen > prog.instructions.len() - bstart {
        return Err(VmError::Invariant { at });
    }
    let mut frame = new_regs(clos.frame as usize);
    // Captured values land in their declared frame slots.
    let mut i: usize = 0;
    while i < captured.len()
        invariant
            frame@.len() == clos.frame as int,
            captured@.len() == clos.captures@.len(),
        decreases captured@.len() - i,
    {
        let slot = clos.captures[i].1;
        if (slot as usize) >= frame.len() {
            return Err(VmError::Invariant { at });
        }
        let v = captured[i].duplicate();
        frame.set(slot as usize, v);
        i += 1;
    }
    // Bind arguments: named entries match parameters by name, positional
    // entries fill the remaining parameters in order, defaults fill the
    // rest; the bundle's emission order is kept for positional entries.
    let mut used: Vec<bool> = Vec::new();
    let mut i: usize = 0;
    while i < items.len()
        invariant
            i <= items@.len(),
            used@.len() == i,
        decreases items@.len() - i,
    {
        used.push(false);
        i += 1;
    }
    let mut p: usize = 0;
    while p < clos.params.len()
        invariant
            used@.len() == items@.len(),
            frame@.len() == clos.frame as int,
            defaults@.len() == clos.params@.len(),
        decreases clos.params@.len() - p,
    {
        let param = &clos.params[p];
        if (param.name.0 as usize) >= prog.strings.len() {
            return Err(VmError::Invariant { at });
        }
        let pname = &prog.strings[param.name.0 as usize];
        if (param.slot as usize) >= frame.len() {
            return Err(VmError::Invariant { at });
        }
        let mut chosen: Option<Value> = None;
        // A named argument wins.
        let mut j: usize = 0;
        while j < items.len()
            invariant
                used@.len() == items@.len(),
            decreases items@.len() - j,
        {
            if !used[j] {
                match &items[j].0 {
                    Some(n) => {
                        if *n == *pname {
                            used.set(j, true);
                            chosen = Some(items[j].1.duplicate());
                        }
                    },
                    None => (),
                }
            }
            j += 1;
        }
        // Otherwise the next unused positional argument.
        match chosen {
            Some(_) => (),
            None => {
                let mut j: usize = 0;
                while j < items.len()
                    invariant
                        used@.len() == items@.len(),
                    decreases items@.len() - j,
                {
                    match (&chosen, &items[j].0) {
                        (None, None) => {
                            if !used[j] {
                                used.set(j, true);
                                chosen = Some(items[j].1.duplicate());
                            }
                        },
                        _ => (),
                    }
                    j += 1;
                }
            },
        }
        // Otherwise the default captured at instantiation time.
        let v = match chosen {
            Some(v) => v,
            None => match &defaults[p] {
                Some(d) => d.duplicate(),
                None => {
                    return Err(
                        VmError::Eval { kind: EvalErrorKind::MissingArgument, span },
                    );
                },
            },
        };
        frame.set(param.slot as usize, v);
        p += 1;
    }
    // Anything left over names no parameter.
    let mut j: usize = 0;
    while j < items.len()
        invariant
            used@.len() == items@.len(),
        decreases items@.len() - j,
    {
        if !used[j] {
            return Err(VmError::Eval { kind: EvalErrorKind::UnknownArgument, span });
        }
        j += 1;
    }
    let mut buf: Vec<Value> = Vec::new();
    let mut sub_idx: usize = 0;
    let f = run_range(
        prog,
        &mut frame,
        vm,
        bstart,
        blen,
        None,
        &mut sub_idx,
        &mut buf,
        depth,
    )?;
    match f {
        Flow::Return(Some(v)) => Ok(v),
        Flow::Return(None) => Ok(fold_scope(buf, clos.content)),
        Flow::Done => Ok(fold_scope(buf, clos.content)),
        _ => Err(VmError::Invariant { at }),
    }
}

/// Runs a whole program as one function boundary: `Return` is consumed
/// here, and a program that runs to its end yields its joined content
/// (or the absent value for a non-content program).
///
/// For a program consisting of one operator instruction the contract is
/// exact: the slot file ends as `operator_step_post` demands, an
/// evaluation error carries that instruction's span, and the returned
/// value is the fold of whatever the instruction emitted for joining.
pub fn run(
    prog: &Program,
    regs: &mut Vec<Value>,
    vm: &mut Vm,
    content: bool,
    depth: u64,
) -> (res: Result<Value, VmError>)
    requires
        prog.spans@.len() == prog.instructions@.len(),
        old(vm).iterations <= old(vm).budget,
    ensures
        final(regs)@.len() == old(regs)@.len(),
        final(vm).budget == old(vm).budget,
        old(vm).iterations <= final(vm).iterations,
        final(vm).iterations <= final(vm).budget,
        res matches Ok(_) ==> final(vm).styles@ == old(vm).styles@,
        prog.instructions@.len() == 1 && is_operator(prog.instructions@[0]) ==> match res {
            Ok(v) => exists|buf: Seq<Value>|
                #[trigger] operator_step_post(
                    *prog,
                    prog.instructions@[0],
                    old(regs)@,
                    final(regs)@,
                    Seq::empty(),
                    buf,
                    Ok(()),
                    0,
                    prog.spans@[0],
                ) && m(v) == scope_product(buf, content),
            Err(e) => operator_step_post(
                *prog,
                prog.instructions@[0],
                old(regs)@,
                final(regs)@,
                Seq::empty(),
                Seq::empty(),
                Err(e),
                0,
                prog.spans@[0],
            ),
        },
{
    let len = prog.instructions.len();
    let mut buf: Vec<Value> = Vec::new();
    let mut no_idx: usize = 0;
    let f = run_range(prog, regs, vm, 0, len, None, &mut no_idx, &mut buf, depth)?;
    match f {
        Flow::Return(Some(v)) => Ok(v),
        Flow::Return(None) => Ok(fold_scope(buf, content)),
        Flow::Done => Ok(fold_scope(buf, content)),
        _ => Err(VmError::Invariant { at: 0 }),
    }
}

/// The model value a readable operand denotes, when its index is in
/// range.
pub open spec fn operand_model(prog: Program, regs: Seq<Value>, r: Readable) -> Option<Mv> {
    match r {
        Readable::Const(i) => if (i as int) < prog.constants@.len() {
            Some(m(prog.constants@[i as int]))
        } else {
            None
        },
        Readable::Reg(i) => if (i as int) < regs.len() {
            Some(m(regs[i as int]))
        } else {
            None
        },
    }
}

/// Whether a destination and both operands of an instruction are in
/// range, so that the instruction owes a result.
pub open spec fn binary_in_range(
    prog: Program,
    regs: Seq<Value>,
    lhs: Readable,
    rhs: Readable,
    out: Writable,
) -> bool {
    &&& operand_model(prog, regs, lhs) is Some
    &&& operand_model(prog, regs, rhs) is Some
    &&& match out {
        Writable::Reg(r) => (r as int) < regs.len(),
        Writable::Joined => true,
    }
}

/// Exactly what one binary operator instruction does: it reads its two
/// operands, applies `spec_binary`, and writes the result to its
/// destination and nowhere else; an evaluation error carries the
/// instruction's span and writes nothing; a fatal invariant break occurs
/// only when an operand or the destination is out of range.
pub open spec fn binary_post(
    prog: Program,
    op: BinOp,
    lhs: Readable,
    rhs: Readable,
    out: Writable,
    pre_regs: Seq<Value>,
    post_regs: Seq<Value>,
    pre_joined: Seq<Value>,
    post_joined: Seq<Value>,
    res: Result<(), VmError>,
    at: usize,
    span: u64,
) -> bool {
    match res {
        Ok(_) => match (operand_model(prog, pre_regs, lhs), operand_model(prog, pre_regs, rhs)) {
            (Some(a), Some(b)) => match spec_binary(op, a, b) {
                Ok(w) => match out {
                    Writable::Reg(r) => (r as int) < pre_regs.len() && m_seq(post_regs)
                        == m_seq(pre_regs).update(r as int, w) && post_joined == pre_joined,
                    Writable::Joined => m_seq(post_joined) == m_seq(pre_joined).push(w)
                        && post_regs == pre_regs,
                },
                Err(_) => false,
            },
            _ => false,
        },
        Err(VmError::Eval { kind, span: s }) => s == span && post_regs == pre_regs
            && post_joined == pre_joined && match (
            operand_model(prog, pre_regs, lhs),
            operand_model(prog, pre_regs, rhs),
        ) {
            (Some(a), Some(b)) => spec_binary(op, a, b) == Err::<Mv, EvalErrorKind>(kind),
            _ => false,
        },
        Err(VmError::Invariant { at: a }) => a == at && post_regs == pre_regs && post_joined
            == pre_joined && !binary_in_range(prog, pre_regs, lhs, rhs, out),
    }
}

/// Exactly what one unary operator instruction does, as `binary_post`.
pub open spec fn unary_post(
    prog: Program,
    op: UnOp,
    value: Readable,
    out: Writable,
    pre_regs: Seq<Value>,
    post_regs: Seq<Value>,
    pre_joined: Seq<Value>,
    post_joined: Seq<Value>,
    res: Result<(), VmError>,
    at: usize,
    span: u64,
) -> bool {
    match res {
        Ok(_) => match operand_model(prog, pre_regs, value) {
            Some(a) => match spec_unary(op, a) {
                Ok(w) => match out {
                    Writable::Reg(r) => (r as int) < pre_regs.len() && m_seq(post_regs)
                        == m_seq(pre_regs).update(r as int, w) && post_joined == pre_joined,
                    Writable::Joined => m_seq(post_joined) == m_seq(pre_joined).push(w)
                        && post_regs == pre_regs,
                },
                Err(_) => false,
            },
            None => false,
        },
        Err(VmError::Eval { kind, span: s }) => s == span && post_regs == pre_regs
            && post_joined == pre_joined && match operand_model(prog, pre_regs, value) {
            Some(a) => spec_unary(op, a) == Err::<Mv, EvalErrorKind>(kind),
            None => false,
        },
        Err(VmError::Invariant { at: a }) => a == at && post_regs == pre_regs && post_joined
            == pre_joined && !(operand_model(prog, pre_regs, value) is Some && match out {
            Writable::Reg(r) => (r as int) < pre_regs.len(),
            Writable::Joined => true,
        }),
    }
}

/// Evaluates one binary operator instruction and writes its result; an
/// evaluation error is attributed to the instruction's span.
fn binary_step(
    prog: &Program,
    regs: &mut Vec<Value>,
    joined: &mut Vec<Value>,
    op: BinOp,
    lhs: Readable,
    rhs: Readable,
    out: Writable,
    at: usize,
    span: u64,
) -> (res: Result<(), VmError>)
    ensures
        final(regs)@.len() == old(regs)@.len(),
        binary_post(
            *prog,
            op,
            lhs,
            rhs,
            out,
            old(regs)@,
            final(regs)@,
            old(joined)@,
            final(joined)@,
            res,
            at,
            span,
        ),
{
    let a = match read_operand(prog, regs, lhs, at) {
        Ok(v) => v,
        Err(e) => {
            return Err(e);
        },
    };
    let b = match read_operand(prog, regs, rhs, at) {
        Ok(v) => v,
        Err(e) => {
            return Err(e);
        },
    };
    match eval_binary(op, a, b) {
        Ok(v) => {
            let ghost pre = regs@;
            let ghost w = m(v);
            let r = write_operand(regs, joined, out, v, at);
            proof {
                if r is Ok {
                    match out {
                        Writable::Reg(x) => {
                            lemma_m_seq_update(pre, x as int, v);
                        },
                        Writable::Joined => {
                            lemma_m_seq_push(old(joined)@, v);
                        },
                    }
                }
            }
            r
        },
        Err(k) => Err(VmError::Eval { kind: k, span }),
    }
}

/// Evaluates one unary operator instruction and writes its result.
fn unary_step(
    prog: &Program,
    regs: &mut Vec<Value>,
    joined: &mut Vec<Value>,
    op: UnOp,
    value: Readable,
    out: Writable,
    at: usize,
    span: u64,
) -> (res: Result<(), VmError>)
    ensures
        final(regs)@.len() == old(regs)@.len(),
        unary_post(
            *prog,
            op,
            value,
            out,
            old(regs)@,
            final(regs)@,
            old(joined)@,
            final(joined)@,
            res,
            at,
            span,
        ),
{
    let a = match read_operand(prog, regs, value, at) {
        Ok(v) => v,
        Err(e) => {
            return Err(e);
        },
    };
    match eval_unary(op, a) {
        Ok(v) => {
            let ghost pre = regs@;
            let r = write_operand(regs, joined, out, v, at);
            proof {
                if r is Ok {
                    match out {
                        Writable::Reg(x) => {
                            lemma_m_seq_update(pre, x as int, v);
                        },
                        Writable::Joined => {
                            lemma_m_seq_push(old(joined)@, v);
                        },
                    }
                }
            }
            r
        },
        Err(k) => Err(VmError::Eval { kind: k, span }),
    }
}

} // verus!
