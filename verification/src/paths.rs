//! Lvalue machinery: resolved access-path segments, reads and writes
//! through them, and the container mutations used by the two-phase value
//! construction instructions (`Push`, `Insert`, `Spread`, argument
//! bundles).

use vstd::prelude::*;
use crate::value::{
    Value, Mv, m, m_seq, m_pairs, m_pair, m_args, m_arg, lemma_m_seq, lemma_m_pairs,
    lemma_m_args, dup_values, dup_pairs,
};
use crate::ops::{EvalErrorKind, dict_contains_key};

verus! {

/// One resolved access-path segment: a field name or an array index,
/// already evaluated to a plain value.
pub enum RSeg {
    Field(String),
    Index(i64),
}

/// The model of a resolved segment.
pub open spec fn m_rseg(s: RSeg) -> MSeg {
    match s {
        RSeg::Field(n) => MSeg::Field(n@),
        RSeg::Index(i) => MSeg::Index(i as int),
    }
}

/// The model of a sequence of resolved segments.
pub open spec fn m_rsegs(s: Seq<RSeg>) -> Seq<MSeg> {
    s.map_values(|x: RSeg| m_rseg(x))
}

/// A model segment.
pub enum MSeg {
    Field(Seq<char>),
    Index(int),
}

/// The least index at which a dictionary model holds the key, or -1.
pub open spec fn dict_find(ps: Seq<(Seq<char>, Mv)>, k: Seq<char>) -> int
    decreases ps.len(),
{
    if ps.len() == 0 {
        -1
    } else if ps[0].0 == k {
        0
    } else {
        let r = dict_find(ps.subrange(1, ps.len() as int), k);
        if r == -1 {
            -1
        } else {
            r + 1
        }
    }
}

/// `dict_find` finds the first entry with the key, exactly when
/// `dict_contains_key` holds.
pub proof fn lemma_dict_find(ps: Seq<(Seq<char>, Mv)>, k: Seq<char>)
    ensures
        dict_contains_key(ps, k) <==> 0 <= dict_find(ps, k) < ps.len(),
        0 <= dict_find(ps, k) ==> ps[dict_find(ps, k)].0 == k,
        forall|i: int| 0 <= i < dict_find(ps, k) ==> ps[i].0 != k,
        !dict_contains_key(ps, k) ==> dict_find(ps, k) == -1,
    decreases ps.len(),
{
    if ps.len() > 0 && ps[0].0 != k {
        let tail = ps.subrange(1, ps.len() as int);
        lemma_dict_find(tail, k);
        assert(forall|i: int| 0 <= i < tail.len() ==> tail[i] == ps[i + 1]);
        if dict_contains_key(ps, k) {
            let w = choose|i: int| 0 <= i < ps.len() && ps[i].0 == k;
            assert(tail[w - 1].0 == k);
            assert(dict_contains_key(tail, k));
        }
        if dict_contains_key(tail, k) {
            let w = choose|i: int| 0 <= i < tail.len() && tail[i].0 == k;
            assert(ps[w + 1].0 == k);
            assert(dict_contains_key(ps, k));
        }
        if 0 <= dict_find(ps, k) {
            assert(ps[dict_find(ps, k)] == tail[dict_find(tail, k)]);
        }
        assert forall|i: int| 0 <= i < dict_find(ps, k) implies ps[i].0 != k by {
            if i > 0 {
                assert(tail[i - 1] == ps[i]);
            }
        }
    }
}

/// Exact semantics of looking a key up in a dictionary model.
pub open spec fn spec_dict_get(ps: Seq<(Seq<char>, Mv)>, k: Seq<char>) -> Result<
    Mv,
    EvalErrorKind,
> {
    if dict_contains_key(ps, k) {
        Ok(ps[dict_find(ps, k)].1)
    } else {
        Err(EvalErrorKind::MissingKey)
    }
}

/// Looks a key up in a dictionary: the value of the first entry with
/// that key.
pub fn dict_get(ps: &Vec<(String, Value)>, key: &String) -> (r: Result<Value, EvalErrorKind>)
    ensures
        crate::ops::m_result(r) == spec_dict_get(m_pairs(ps@), key@),
{
    proof {
        lemma_m_pairs(ps@);
        lemma_dict_find(m_pairs(ps@), key@);
    }
    let ghost mps = m_pairs(ps@);
    let mut i: usize = 0;
    while i < ps.len()
        invariant
            i <= ps@.len(),
            mps == m_pairs(ps@),
            mps.len() == ps@.len(),
            forall|j: int| 0 <= j < ps@.len() ==> mps[j] == m_pair(ps@[j]),
            forall|j: int| 0 <= j < i ==> mps[j].0 != key@,
            dict_contains_key(mps, key@) <==> 0 <= dict_find(mps, key@) < mps.len(),
            0 <= dict_find(mps, key@) ==> mps[dict_find(mps, key@)].0 == key@,
            forall|j: int| 0 <= j < dict_find(mps, key@) ==> mps[j].0 != key@,
            !dict_contains_key(mps, key@) ==> dict_find(mps, key@) == -1,
        decreases ps@.len() - i,
    {
        if ps[i].0 == *key {
            let v = ps[i].1.duplicate();
            assert(mps[i as int].0 == key@);
            assert(dict_contains_key(mps, key@));
            assert(dict_find(mps, key@) == i as int);
            return Ok(v);
        }
        i += 1;
    }
    assert(!dict_contains_key(mps, key@));
    Err(EvalErrorKind::MissingKey)
}

/// Exact semantics of inserting into a dictionary model: the first entry
/// with the key is replaced, else the entry is appended.
pub open spec fn spec_dict_insert(
    ps: Seq<(Seq<char>, Mv)>,
    k: Seq<char>,
    v: Mv,
) -> Seq<(Seq<char>, Mv)> {
    if dict_contains_key(ps, k) {
        ps.update(dict_find(ps, k), (k, v))
    } else {
        ps.push((k, v))
    }
}

/// Inserts a keyed value into a dictionary, replacing the first entry
/// with an equal key if one exists.
pub fn dict_insert(ps: &mut Vec<(String, Value)>, key: String, v: Value)
    ensures
        m_pairs(final(ps)@) == spec_dict_insert(m_pairs(old(ps)@), key@, m(v)),
{
    proof {
        lemma_m_pairs(ps@);
        lemma_dict_find(m_pairs(ps@), key@);
    }
    let ghost mps = m_pairs(old(ps)@);
    let mut i: usize = 0;
    while i < ps.len()
        invariant
            i <= ps@.len(),
            ps@ == old(ps)@,
            mps == m_pairs(ps@),
            mps.len() == ps@.len(),
            forall|j: int| 0 <= j < ps@.len() ==> mps[j] == m_pair(ps@[j]),
            forall|j: int| 0 <= j < i ==> mps[j].0 != key@,
            dict_contains_key(mps, key@) <==> 0 <= dict_find(mps, key@) < mps.len(),
            0 <= dict_find(mps, key@) ==> mps[dict_find(mps, key@)].0 == key@,
            forall|j: int| 0 <= j < dict_find(mps, key@) ==> mps[j].0 != key@,
            !dict_contains_key(mps, key@) ==> dict_find(mps, key@) == -1,
        decreases ps@.len() - i,
    {
        if ps[i].0 == key {
            assert(mps[i as int].0 == key@);
            assert(dict_contains_key(mps, key@));
            assert(dict_find(mps, key@) == i as int);
            ps.set(i, (key, v));
            proof {
                lemma_m_pairs(ps@);
                assert(m_pairs(ps@) =~= mps.update(i as int, (key@, m(v))));
            }
            return ;
        }
        i += 1;
    }
    assert(!dict_contains_key(mps, key@));
    ps.push((key, v));
    proof {
        lemma_m_pairs(ps@);
        assert(m_pairs(ps@) =~= mps.push((key@, m(v))));
    }
}

/// Exact semantics of updating an array model at an index.
pub open spec fn spec_array_set(els: Seq<Mv>, i: int, v: Mv) -> Result<Seq<Mv>, EvalErrorKind> {
    if 0 <= i < els.len() {
        Ok(els.update(i, v))
    } else {
        Err(EvalErrorKind::IndexOutOfBounds)
    }
}

/// Replaces the element of an array at an index.
pub fn array_set(els: &mut Vec<Value>, i: i64, v: Value) -> (r: Result<(), EvalErrorKind>)
    ensures
        match r {
            Ok(_) => spec_array_set(m_seq(old(els)@), i as int, m(v)) == Ok::<
                Seq<Mv>,
                EvalErrorKind,
            >(m_seq(final(els)@)),
            Err(k) => spec_array_set(m_seq(old(els)@), i as int, m(v)) == Err::<
                Seq<Mv>,
                EvalErrorKind,
            >(k) && final(els)@ == old(els)@,
        },
{
    proof {
        lemma_m_seq(els@);
    }
    if i < 0 || i as u64 >= els.len() as u64 {
        return Err(EvalErrorKind::IndexOutOfBounds);
    }
    let idx = (i as u64) as usize;
    let ghost pre = m_seq(els@);
    let ghost prev = els@;
    els.set(idx, v);
    proof {
        lemma_m_seq(els@);
        assert forall|j: int| 0 <= j < els@.len() implies m_seq(els@)[j] == pre.update(
            i as int,
            m(v),
        )[j] by {
            if j != i as int {
                assert(els@[j] == prev[j]);
                assert(pre[j] == m(prev[j]));
            }
        }
        assert(m_seq(els@) =~= pre.update(i as int, m(v)));
    }
    Ok(())
}

/// Exact semantics of reading one step of an access path on the model.
pub open spec fn spec_step_read(cur: Mv, seg: MSeg) -> Result<Mv, EvalErrorKind> {
    match seg {
        MSeg::Field(k) => match cur {
            Mv::Dict(ps) => spec_dict_get(ps, k),
            Mv::Module(ps) => spec_dict_get(ps, k),
            _ => Err(EvalErrorKind::NoFields),
        },
        MSeg::Index(i) => match cur {
            Mv::Array(els) => if 0 <= i < els.len() {
                Ok(els[i])
            } else {
                Err(EvalErrorKind::IndexOutOfBounds)
            },
            _ => Err(EvalErrorKind::TypeMismatch),
        },
    }
}

/// Exact semantics of reading a whole access path on the model.
pub open spec fn spec_path_read(cur: Mv, segs: Seq<MSeg>) -> Result<Mv, EvalErrorKind>
    decreases segs.len(),
{
    if segs.len() == 0 {
        Ok(cur)
    } else {
        match spec_step_read(cur, segs[0]) {
            Ok(next) => spec_path_read(next, segs.subrange(1, segs.len() as int)),
            Err(k) => Err(k),
        }
    }
}

/// Reads through a chain of resolved segments, starting from `cur`.
pub fn path_read(cur: &Value, segs: &Vec<RSeg>, from: usize) -> (r: Result<
    Value,
    EvalErrorKind,
>)
    requires
        from <= segs@.len(),
    ensures
        crate::ops::m_result(r) == spec_path_read(
            m(*cur),
            m_rsegs(segs@).subrange(from as int, segs@.len() as int),
        ),
    decreases segs@.len() - from,
{
    if from == segs.len() {
        let v = cur.duplicate();
        assert(m_rsegs(segs@).subrange(from as int, segs@.len() as int) =~= Seq::<
            MSeg,
        >::empty());
        return Ok(v);
    }
    let ghost rest = m_rsegs(segs@).subrange(from as int, segs@.len() as int);
    assert(rest[0] == m_rseg(segs@[from as int]));
    assert(rest.subrange(1, rest.len() as int) =~= m_rsegs(segs@).subrange(
        from as int + 1,
        segs@.len() as int,
    ));
    let step: Result<Value, EvalErrorKind> = match &segs[from] {
        RSeg::Field(k) => match cur {
            Value::Dict(ps) => dict_get(ps, k),
            Value::Module(ps) => dict_get(ps, k),
            _ => Err(EvalErrorKind::NoFields),
        },
        RSeg::Index(i) => match cur {
            Value::Array(els) => {
                proof {
                    lemma_m_seq(els@);
                }
                if *i >= 0 && (*i as u64) < els.len() as u64 {
                    let idx = (*i as u64) as usize;
                    Ok(els[idx].duplicate())
                } else {
                    Err(EvalErrorKind::IndexOutOfBounds)
                }
            },
            _ => Err(EvalErrorKind::TypeMismatch),
        },
    };
    match step {
        Ok(next) => path_read(&next, segs, from + 1),
        Err(k) => Err(k),
    }
}

/// Exact semantics of writing a whole access path on the model: the
/// untouched parts of the structure are kept, the addressed place is
/// replaced.
pub open spec fn spec_path_write(cur: Mv, segs: Seq<MSeg>, new: Mv) -> Result<
    Mv,
    EvalErrorKind,
>
    decreases segs.len(),
{
    if segs.len() == 0 {
        Ok(new)
    } else {
        match segs[0] {
            MSeg::Field(k) => match cur {
                Mv::Dict(ps) => match spec_dict_get(ps, k) {
                    Ok(inner) => match spec_path_write(
                        inner,
                        segs.subrange(1, segs.len() as int),
                        new,
                    ) {
                        Ok(w) => Ok(Mv::Dict(ps.update(dict_find(ps, k), (k, w)))),
                        Err(e) => Err(e),
                    },
                    Err(e) => Err(e),
                },
                _ => Err(EvalErrorKind::NoFields),
            },
            MSeg::Index(i) => match cur {
                Mv::Array(els) => if 0 <= i < els.len() {
                    match spec_path_write(els[i], segs.subrange(1, segs.len() as int), new) {
                        Ok(w) => Ok(Mv::Array(els.update(i, w))),
                        Err(e) => Err(e),
                    }
                } else {
                    Err(EvalErrorKind::IndexOutOfBounds)
                },
                _ => Err(EvalErrorKind::TypeMismatch),
            },
        }
    }
}

/// Writes through a chain of resolved segments, rebuilding the
/// containers along the path.
#[verifier::loop_isolation(false)]
pub fn path_write(cur: &Value, segs: &Vec<RSeg>, from: usize, new: Value) -> (r: Result<
    Value,
    EvalErrorKind,
>)
    requires
        from <= segs@.len(),
    ensures
        crate::ops::m_result(r) == spec_path_write(
            m(*cur),
            m_rsegs(segs@).subrange(from as int, segs@.len() as int),
            m(new),
        ),
    decreases segs@.len() - from,
{
    if from == segs.len() {
        assert(m_rsegs(segs@).subrange(from as int, segs@.len() as int) =~= Seq::<
            MSeg,
        >::empty());
        return Ok(new);
    }
    let ghost rest = m_rsegs(segs@).subrange(from as int, segs@.len() as int);
    assert(rest[0] == m_rseg(segs@[from as int]));
    assert(rest.subrange(1, rest.len() as int) =~= m_rsegs(segs@).subrange(
        from as int + 1,
        segs@.len() as int,
    ));
    match &segs[from] {
        RSeg::Field(k) => match cur {
            Value::Dict(ps) => {
                let inner = match dict_get(ps, k) {
                    Ok(v) => v,
                    Err(e) => {
                        return Err(e);
                    },
                };
                let w = match path_write(&inner, segs, from + 1, new) {
                    Ok(v) => v,
                    Err(e) => {
                        return Err(e);
                    },
                };
                let mut out = dup_pairs(ps);
                proof {
                    lemma_m_pairs(ps@);
                    lemma_m_pairs(out@);
                    lemma_dict_find(m_pairs(ps@), k@);
                }
                let mut i: usize = 0;
                let n = out.len();
                while i < n
                    invariant
                        n == out@.len(),
                        i <= n,
                        m_pairs(out@) == m_pairs(ps@),
                        m_pairs(ps@).len() == ps@.len() == out@.len(),
                        forall|j: int| 0 <= j < out@.len() ==> m_pairs(out@)[j] == m_pair(
                            out@[j],
                        ),
                        forall|j: int| 0 <= j < i ==> m_pairs(ps@)[j].0 != k@,
                        forall|j: int|
                            0 <= j < dict_find(m_pairs(ps@), k@) ==> m_pairs(ps@)[j].0 != k@,
                        0 <= dict_find(m_pairs(ps@), k@) < ps@.len(),
                        m_pairs(ps@)[dict_find(m_pairs(ps@), k@)].0 == k@,
                    decreases n - i,
                {
                    if out[i].0 == *k {
                        assert(m_pairs(out@)[i as int].0 == k@);
                        assert(m_pairs(ps@)[i as int].0 == k@);
                        assert(dict_find(m_pairs(ps@), k@) == i as int);
                        let key2 = out[i].0.clone();
                        out.set(i, (key2, w));
                        proof {
                            lemma_m_pairs(out@);
                            assert(m_pairs(out@) =~= m_pairs(ps@).update(
                                i as int,
                                (k@, m(w)),
                            ));
                            assert(spec_dict_get(m_pairs(ps@), k@) == Ok::<
                                Mv,
                                EvalErrorKind,
                            >(m(inner)));
                            assert(m(inner) == m_pairs(ps@)[dict_find(
                                m_pairs(ps@),
                                k@,
                            )].1);
                            assert(spec_path_write(
                                m(inner),
                                rest.subrange(1, rest.len() as int),
                                m(new),
                            ) == Ok::<Mv, EvalErrorKind>(m(w)));
                            assert(rest[0] == MSeg::Field(k@));
                            assert(spec_path_write(m(*cur), rest, m(new)) == Ok::<
                                Mv,
                                EvalErrorKind,
                            >(Mv::Dict(m_pairs(out@))));
                        }
                        return Ok(Value::Dict(out));
                    }
                    i += 1;
                }
                proof {
                    lemma_dict_find(m_pairs(ps@), k@);
                }
                assert(false);
                Err(EvalErrorKind::MissingKey)
            },
            _ => Err(EvalErrorKind::NoFields),
        },
        RSeg::Index(idx) => match cur {
            Value::Array(els) => {
                proof {
                    lemma_m_seq(els@);
                }
                if *idx >= 0 && (*idx as u64) < els.len() as u64 {
                    let pos = (*idx as u64) as usize;
                    let inner = els[pos].duplicate();
                    let w = match path_write(&inner, segs, from + 1, new) {
                        Ok(v) => v,
                        Err(e) => {
                            return Err(e);
                        },
                    };
                    let mut out = dup_values(els);
                    match array_set(&mut out, *idx, w) {
                        Ok(_) => Ok(Value::Array(out)),
                        Err(e) => Err(e),
                    }
                } else {
                    Err(EvalErrorKind::IndexOutOfBounds)
                }
            },
            _ => Err(EvalErrorKind::TypeMismatch),
        },
    }
}

/// Exact semantics of `Spread` into a construction context: the consumer
/// container decides how the value is folded in.
pub open spec fn spec_spread(container: Mv, v: Mv) -> Result<Mv, EvalErrorKind> {
    match container {
        Mv::Array(els) => match v {
            Mv::Array(more) => Ok(Mv::Array(els + more)),
            Mv::Nothing => Ok(Mv::Array(els)),
            _ => Err(EvalErrorKind::TypeMismatch),
        },
        Mv::Dict(ps) => match v {
            Mv::Dict(more) => Ok(Mv::Dict(spec_dict_insert_all(ps, more))),
            Mv::Nothing => Ok(Mv::Dict(ps)),
            _ => Err(EvalErrorKind::TypeMismatch),
        },
        Mv::Args(items) => match v {
            Mv::Array(more) => Ok(Mv::Args(items + more.map_values(|e: Mv| (Option::<Seq<char>>::None, e)))),
            Mv::Dict(ps) => Ok(Mv::Args(items + ps.map_values(|e: (Seq<char>, Mv)| (Some(e.0), e.1)))),
            Mv::Args(more) => Ok(Mv::Args(items + more)),
            Mv::Nothing => Ok(Mv::Args(items)),
            _ => Err(EvalErrorKind::Unspreadable),
        },
        _ => Err(EvalErrorKind::Unspreadable),
    }
}

/// Folding a dictionary's entries into another, one insert at a time, in
/// emission order.
pub open spec fn spec_dict_insert_all(
    ps: Seq<(Seq<char>, Mv)>,
    more: Seq<(Seq<char>, Mv)>,
) -> Seq<(Seq<char>, Mv)>
    decreases more.len(),
{
    if more.len() == 0 {
        ps
    } else {
        spec_dict_insert(
            spec_dict_insert_all(ps, more.drop_last()),
            more.last().0,
            more.last().1,
        )
    }
}

/// Spreads a value into a container under construction, with exactly the
/// model semantics of `spec_spread`.
pub fn spread_into(container: Value, v: Value) -> (r: Result<Value, EvalErrorKind>)
    ensures
        crate::ops::m_result(r) == spec_spread(m(container), m(v)),
{
    match (container, v) {
        (Value::Array(els), Value::Array(more)) => {
            let ghost e0 = m_seq(els@);
            proof {
                lemma_m_seq(els@);
            }
            let mut els = els;
            let mut i: usize = 0;
            while i < more.len()
                invariant
                    i <= more@.len(),
                    els@.len() == e0.len() + i,
                    forall|k: int| 0 <= k < e0.len() ==> m(#[trigger] els@[k]) == e0[k],
                    forall|k: int|
                        e0.len() <= k < els@.len() ==> m(#[trigger] els@[k]) == m(
                            more@[k - e0.len()],
                        ),
                    forall|k: int| 0 <= k < e0.len() ==> e0[k] == m_seq(els@)[k],
                    m_seq(els@).len() == els@.len(),
                    forall|k: int| 0 <= k < els@.len() ==> m_seq(els@)[k] == m(els@[k]),
                decreases more@.len() - i,
            {
                let d = more[i].duplicate();
                els.push(d);
                proof {
                    lemma_m_seq(els@);
                }
                i += 1;
            }
            proof {
                lemma_m_seq(els@);
                lemma_m_seq(more@);
                assert(m_seq(els@) =~= e0 + m_seq(more@));
            }
            Ok(Value::Array(els))
        },
        (Value::Array(els), Value::Nothing) => Ok(Value::Array(els)),
        (Value::Dict(ps), Value::Dict(more)) => {
            let ghost p0 = m_pairs(ps@);
            let ghost mm = m_pairs(more@);
            proof {
                lemma_m_pairs(more@);
                assert(mm.subrange(0, 0) =~= Seq::<(Seq<char>, Mv)>::empty());
                assert(spec_dict_insert_all(p0, mm.subrange(0, 0)) == p0);
            }
            let mut ps = ps;
            let mut i: usize = 0;
            while i < more.len()
                invariant
                    i <= more@.len(),
                    mm == m_pairs(more@),
                    mm.len() == more@.len(),
                    forall|j: int| 0 <= j < more@.len() ==> mm[j] == m_pair(more@[j]),
                    m_pairs(ps@) == spec_dict_insert_all(p0, mm.subrange(0, i as int)),
                decreases more@.len() - i,
    {
                let k = more[i].0.clone();
                let d = more[i].1.duplicate();
                proof {
                    assert(mm.subrange(0, i as int + 1).drop_last() =~= mm.subrange(
                        0,
                        i as int,
                    ));
                    assert(mm.subrange(0, i as int + 1).last() == mm[i as int]);
                    assert(mm[i as int] == m_pair(more@[i as int]));
                }
                dict_insert(&mut ps, k, d);
                i += 1;
            }
            proof {
                assert(mm.subrange(0, mm.len() as int) =~= mm);
            }
            Ok(Value::Dict(ps))
        },
        (Value::Dict(ps), Value::Nothing) => Ok(Value::Dict(ps)),
        (Value::Args(items), Value::Array(more)) => {
            let ghost i0 = m_args(items@);
            proof {
                lemma_m_args(items@);
                lemma_m_seq(more@);
            }
            let mut items = items;
            let mut i: usize = 0;
            while i < more.len()
                invariant
                    i <= more@.len(),
                    m_seq(more@).len() == more@.len(),
                    forall|k: int| 0 <= k < more@.len() ==> m_seq(more@)[k] == m(more@[k]),
                    items@.len() == i0.len() + i,
                    m_args(items@).len() == items@.len(),
                    forall|k: int| 0 <= k < items@.len() ==> m_args(items@)[k] == m_arg(
                        items@[k],
                    ),
                    forall|k: int| 0 <= k < i0.len() ==> m_args(items@)[k] == i0[k],
                    forall|k: int|
                        i0.len() <= k < items@.len() ==> m_args(items@)[k] == (
                            Option::<Seq<char>>::None,
                            m_seq(more@)[k - i0.len()],
                        ),
                decreases more@.len() - i,
            {
                let d = more[i].duplicate();
                let ghost prev = items@;
                items.push((None, d));
                proof {
                    assert(items@.drop_last() =~= prev);
                    assert(m_args(items@) == m_args(prev).push(m_arg(items@.last())));
                    lemma_m_args(items@);
                }
                i += 1;
            }
            proof {
                lemma_m_args(items@);
                assert(m_args(items@) =~= i0 + m_seq(more@).map_values(
                    |e: Mv| (Option::<Seq<char>>::None, e),
                ));
            }
            Ok(Value::Args(items))
        },
        (Value::Args(items), Value::Dict(more)) => {
            let ghost i0 = m_args(items@);
            proof {
                lemma_m_args(items@);
                lemma_m_pairs(more@);
            }
            let mut items = items;
            let mut i: usize = 0;
            while i < more.len()
                invariant
                    i <= more@.len(),
                    m_pairs(more@).len() == more@.len(),
                    forall|k: int| 0 <= k < more@.len() ==> m_pairs(more@)[k] == m_pair(
                        more@[k],
                    ),
                    items@.len() == i0.len() + i,
                    m_args(items@).len() == items@.len(),
                    forall|k: int| 0 <= k < items@.len() ==> m_args(items@)[k] == m_arg(
                        items@[k],
                    ),
                    forall|k: int| 0 <= k < i0.len() ==> m_args(items@)[k] == i0[k],
                    forall|k: int|
                        i0.len() <= k < items@.len() ==> m_args(items@)[k] == (
                            Some(m_pairs(more@)[k - i0.len()].0),
                            m_pairs(more@)[k - i0.len()].1,
                        ),
                decreases more@.len() - i,
            {
                let k = more[i].0.clone();
                let d = more[i].1.duplicate();
                let ghost prev = items@;
                items.push((Some(k), d));
                proof {
                    assert(items@.drop_last() =~= prev);
                    assert(m_args(items@) == m_args(prev).push(m_arg(items@.last())));
                    lemma_m_args(items@);
                }
                i += 1;
            }
            proof {
                lemma_m_args(items@);
                assert(m_args(items@) =~= i0 + m_pairs(more@).map_values(
                    |e: (Seq<char>, Mv)| (Some(e.0), e.1),
                ));
            }
            Ok(Value::Args(items))
        },
        (Value::Args(items), Value::Args(more)) => {
            let ghost i0 = m_args(items@);
            proof {
                lemma_m_args(items@);
                lemma_m_args(more@);
            }
            let mut items = items;
            let mut i: usize = 0;
            while i < more.len()
                invariant
                    i <= more@.len(),
                    m_args(more@).len() == more@.len(),
                    forall|k: int| 0 <= k < more@.len() ==> m_args(more@)[k] == m_arg(
                        more@[k],
                    ),
                    items@.len() == i0.len() + i,
                    m_args(items@).len() == items@.len(),
                    forall|k: int| 0 <= k < items@.len() ==> m_args(items@)[k] == m_arg(
                        items@[k],
                    ),
                    forall|k: int| 0 <= k < i0.len() ==> m_args(items@)[k] == i0[k],
                    forall|k: int|
                        i0.len() <= k < items@.len() ==> m_args(items@)[k] == m_args(more@)[k
                            - i0.len()],
                decreases more@.len() - i,
            {
                let name = match &more[i].0 {
                    Some(n) => Some(n.clone()),
                    None => None,
                };
                let d = more[i].1.duplicate();
                let ghost prev = items@;
                items.push((name, d));
                proof {
                    assert(items@.drop_last() =~= prev);
                    assert(m_args(items@) == m_args(prev).push(m_arg(items@.last())));
                    lemma_m_args(items@);
                }
                i += 1;
            }
            proof {
                lemma_m_args(items@);
                assert(m_args(items@) =~= i0 + m_args(more@));
            }
            Ok(Value::Args(items))
        },
        (Value::Args(_items), Value::Nothing) => Ok(Value::Args(_items)),
        (Value::Array(_), _) => Err(EvalErrorKind::TypeMismatch),
        (Value::Dict(_), _) => Err(EvalErrorKind::TypeMismatch),
        (Value::Args(_), _) => Err(EvalErrorKind::Unspreadable),
        _ => Err(EvalErrorKind::Unspreadable),
    }
}

} // verus!
