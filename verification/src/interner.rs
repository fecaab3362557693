//! A string interner: an arena of owned strings plus identities into it.
//!
//! Strings are registered exactly once (first use wins); the identity of a
//! string is its position in the arena, so the mapping from strings to
//! identities is injective and stable, and the reverse mapping is total for
//! every identity the interner has handed out.

use vstd::prelude::*;

verus! {

/// The arena of interned strings. Identity `i` names the `i`-th string.
///
/// A process that wants one shared table places an `Interner` behind a
/// read/write lock; the interner itself is a plain value so that its
/// invariants are checkable.
pub struct Interner {
    strings: Vec<String>,
}

impl View for Interner {
    type V = Seq<Seq<char>>;

    /// The model of an interner: the interned strings in identity order.
    closed spec fn view(&self) -> Seq<Seq<char>> {
        self.strings@.map_values(|s: String| s@)
    }
}

/// Whether `s` is already interned in the model `m`.
pub open spec fn is_interned(m: Seq<Seq<char>>, s: Seq<char>) -> bool {
    exists|i: int| 0 <= i < m.len() && m[i] == s
}

/// What one `intern` call does to the model: the table is unchanged when the
/// string was already present, and grows by exactly that string otherwise,
/// and the returned identity names the string in the new table.
pub open spec fn intern_post(
    pre: Seq<Seq<char>>,
    post: Seq<Seq<char>>,
    s: Seq<char>,
    id: u32,
) -> bool {
    &&& post == if is_interned(pre, s) {
        pre
    } else {
        pre.push(s)
    }
    &&& (id as int) < post.len()
    &&& post[id as int] == s
}

impl Interner {
    /// Injectivity of the table: no string is stored under two identities.
    pub open spec fn wf(&self) -> bool {
        forall|i: int, j: int| 0 <= i < j < self@.len() ==> self@[i] != self@[j]
    }

    /// Creates an empty interner.
    pub fn new() -> (r: Interner)
        ensures
            r@ == Seq::<Seq<char>>::empty(),
            r.wf(),
    {
        Interner { strings: Vec::new() }
    }

    /// The number of interned strings, which is also the next fresh identity.
    pub fn len(&self) -> (n: usize)
        ensures
            n == self@.len(),
    {
        self.strings.len()
    }

    /// Returns the existing identity of `string` if it was seen before,
    /// otherwise allocates the next identity for it. Identity space is
    /// exhausted once `u32::MAX` strings are interned; exhaustion is fatal
    /// for the host, so the caller keeps the table below that bound.
    pub fn intern(&mut self, string: &str) -> (id: u32)
        requires
            old(self).wf(),
            old(self)@.len() < u32::MAX,
        ensures
            final(self).wf(),
            intern_post(old(self)@, final(self)@, string@, id),
    {
        let query: String = string.to_owned();
        let n = self.strings.len();
        let mut i: usize = 0;
        while i < n
            invariant
                n == self.strings@.len(),
                i <= n,
                forall|k: int| 0 <= k < i ==> self@[k] != string@,
                query@ == string@,
                self.wf(),
                self@.len() < u32::MAX,
            decreases n - i,
        {
            if self.strings[i] == query {
                assert(self@[i as int] == string@);
                return i as u32;
            }
            i += 1;
        }
        assert(!is_interned(self@, string@));
        let id = n as u32;
        proof {
            self.strings@.lemma_push_map_commute(|s: String| s@, query);
        }
        self.strings.push(query);
        assert(self@ =~= old(self)@.push(string@));
        id
    }

    /// Looks a string up without taking exclusive access: its identity if
    /// it was interned before, nothing otherwise. A process-wide table
    /// serves concurrent readers through this path; only a miss needs the
    /// exclusive insert.
    pub fn lookup(&self, string: &str) -> (r: Option<u32>)
        requires
            self@.len() <= u32::MAX,
        ensures
            match r {
                Some(id) => (id as int) < self@.len() && self@[id as int] == string@,
                None => !is_interned(self@, string@),
            },
    {
        let query: String = string.to_owned();
        let n = self.strings.len();
        let mut i: usize = 0;
        while i < n
            invariant
                n == self.strings@.len(),
                i <= n,
                n <= u32::MAX,
                forall|k: int| 0 <= k < i ==> self@[k] != string@,
                query@ == string@,
            decreases n - i,
        {
            if self.strings[i] == query {
                return Some(i as u32);
            }
            i += 1;
        }
        None
    }

    /// Resolves an identity handed out by `intern` back to its string.
    /// Identities that were not produced by this interner are out of bounds
    /// and are rejected up front, so none of them reaches the arena.
    pub fn resolve(&self, id: u32) -> (r: &str)
        requires
            (id as int) < self@.len(),
        ensures
            r@ == self@[id as int],
    {
        self.strings[id as usize].as_str()
    }
}

/// An interned string: a cheap, comparable, hashable identity.
///
/// The API is purposefully kept small: a lookup in the interner has a real
/// cost, so callers resolve an identity once and keep the string.
#[derive(Clone, Copy, PartialEq, Eq, Hash, Structural, Debug)]
pub struct PicoStr(u32);

impl PicoStr {
    /// The raw identity, for use in contracts.
    pub closed spec fn raw(&self) -> u32 {
        self.0
    }

    /// The identity as a mathematical integer.
    pub open spec fn id(&self) -> int {
        self.raw() as int
    }

    /// Whether this identity was produced by (the current state of) `it`.
    pub open spec fn valid(&self, it: Interner) -> bool {
        self.id() < it@.len()
    }

    /// Creates a new interned string: the existing identity if `string` was
    /// seen before, a fresh one otherwise.
    pub fn new(interner: &mut Interner, string: &str) -> (r: PicoStr)
        requires
            old(interner).wf(),
            old(interner)@.len() < u32::MAX,
        ensures
            final(interner).wf(),
            intern_post(old(interner)@, final(interner)@, string@, r.raw()),
            r.valid(*final(interner)),
    {
        PicoStr(interner.intern(string))
    }

    /// Creates a new interned static string. Statically known strings go
    /// through the same table as dynamic ones, so equal text always yields
    /// an equal identity.
    pub fn static_(interner: &mut Interner, string: &'static str) -> (r: PicoStr)
        requires
            old(interner).wf(),
            old(interner)@.len() < u32::MAX,
        ensures
            final(interner).wf(),
            intern_post(old(interner)@, final(interner)@, string@, r.raw()),
            r.valid(*final(interner)),
    {
        PicoStr(interner.intern(string))
    }

    /// The raw identity as an executable value, for range checks by
    /// holders of the identity.
    pub fn index(&self) -> (r: u32)
        ensures
            r == self.raw(),
    {
        self.0
    }

    /// Looks a string up without interning it: its identity if it was
    /// interned before.
    pub fn lookup(interner: &Interner, string: &str) -> (r: Option<PicoStr>)
        requires
            interner@.len() <= u32::MAX,
        ensures
            match r {
                Some(p) => p.valid(*interner) && interner@[p.id()] == string@,
                None => !is_interned(interner@, string@),
            },
    {
        match interner.lookup(string) {
            Some(id) => Some(PicoStr(id)),
            None => None,
        }
    }

    /// Orders two identities for display and deterministic iteration: by
    /// the strings they resolve to, never by the raw identity numbers,
    /// which carry no meaning for sorting.
    pub fn lt(&self, other: &PicoStr, interner: &Interner) -> (r: bool)
        requires
            self.valid(*interner),
            other.valid(*interner),
        ensures
            r == lex_lt(
                vstd::utf8::encode_utf8(interner@[self.id()]),
                vstd::utf8::encode_utf8(interner@[other.id()]),
            ),
    {
        let a = interner.resolve(self.0);
        let b = interner.resolve(other.0);
        bytes_lt(a.as_bytes(), b.as_bytes())
    }

    /// Resolves the interned string.
    pub fn resolve<'a>(&self, interner: &'a Interner) -> (r: &'a str)
        requires
            self.valid(*interner),
        ensures
            r@ == interner@[self.id()],
    {
        interner.resolve(self.0)
    }
}

/// Lexicographic order on byte sequences: the order of the encoded
/// strings, which is how strings themselves compare.
pub open spec fn lex_lt(a: Seq<u8>, b: Seq<u8>) -> bool
    decreases a.len(),
{
    if b.len() == 0 {
        false
    } else if a.len() == 0 {
        true
    } else if a[0] < b[0] {
        true
    } else if a[0] > b[0] {
        false
    } else {
        lex_lt(a.subrange(1, a.len() as int), b.subrange(1, b.len() as int))
    }
}

/// Compares two byte slices lexicographically.
fn bytes_lt(a: &[u8], b: &[u8]) -> (r: bool)
    ensures
        r == lex_lt(a@, b@),
{
    let mut i: usize = 0;
    proof {
        assert(a@.subrange(0, a@.len() as int) =~= a@);
        assert(b@.subrange(0, b@.len() as int) =~= b@);
    }
    while i < a.len() && i < b.len()
        invariant
            i <= a@.len(),
            i <= b@.len(),
            lex_lt(a@, b@) == lex_lt(
                a@.subrange(i as int, a@.len() as int),
                b@.subrange(i as int, b@.len() as int),
            ),
        decreases a@.len() - i,
    {
        let ghost ra = a@.subrange(i as int, a@.len() as int);
        let ghost rb = b@.subrange(i as int, b@.len() as int);
        proof {
            assert(ra[0] == a@[i as int]);
            assert(rb[0] == b@[i as int]);
            assert(ra.subrange(1, ra.len() as int) =~= a@.subrange(
                i as int + 1,
                a@.len() as int,
            ));
            assert(rb.subrange(1, rb.len() as int) =~= b@.subrange(
                i as int + 1,
                b@.len() as int,
            ));
        }
        if a[i] < b[i] {
            return true;
        }
        if a[i] > b[i] {
            return false;
        }
        i += 1;
    }
    proof {
        let ra = a@.subrange(i as int, a@.len() as int);
        let rb = b@.subrange(i as int, b@.len() as int);
        assert(ra.len() == 0 || rb.len() == 0);
    }
    a.len() < b.len()
}

/// Law: the interner is a bijection between its strings and their
/// identities — the same text is never stored under two identities, so
/// equal strings always compare equal by identity and distinct identities
/// always resolve to distinct strings.
pub proof fn lemma_interner_bijective(it: Interner, i: int, j: int)
    requires
        it.wf(),
        0 <= i < it@.len(),
        0 <= j < it@.len(),
        it@[i] == it@[j],
    ensures
        i == j,
{
}

/// Law: interning is idempotent. A second `intern` of an equal string
/// leaves the table unchanged and yields the same identity.
pub proof fn lemma_intern_idempotent(
    pre: Seq<Seq<char>>,
    mid: Seq<Seq<char>>,
    fin: Seq<Seq<char>>,
    s: Seq<char>,
    id1: u32,
    id2: u32,
)
    requires
        forall|i: int, j: int| 0 <= i < j < mid.len() ==> mid[i] != mid[j],
        intern_post(pre, mid, s, id1),
        intern_post(mid, fin, s, id2),
    ensures
        fin == mid,
        id1 == id2,
{
    assert(mid[id1 as int] == s);
    assert(is_interned(mid, s));
    assert(fin == mid);
}

/// Law: interned identities agree exactly when the texts agree. After
/// interning `s1` and then `s2` into an injective table, the two
/// identities are equal if and only if the two strings are equal.
pub proof fn lemma_intern_identity(
    pre: Seq<Seq<char>>,
    mid: Seq<Seq<char>>,
    fin: Seq<Seq<char>>,
    s1: Seq<char>,
    s2: Seq<char>,
    id1: u32,
    id2: u32,
)
    requires
        forall|i: int, j: int| 0 <= i < j < fin.len() ==> fin[i] != fin[j],
        intern_post(pre, mid, s1, id1),
        intern_post(mid, fin, s2, id2),
    ensures
        (id1 == id2) <==> (s1 == s2),
{
    assert(fin[id1 as int] == s1);
    assert(fin[id2 as int] == s2);
    if s1 == s2 {
        assert(mid[id1 as int] == s2);
        assert(is_interned(mid, s2));
        assert(fin == mid);
        if id1 != id2 {
            assert(fin[id1 as int] != fin[id2 as int]);
        }
    }
}

/// Law: resolving the identity returned by `intern` yields the interned
/// string itself, for every string, including the empty one.
pub proof fn lemma_resolve_intern(
    pre: Seq<Seq<char>>,
    post: Seq<Seq<char>>,
    s: Seq<char>,
    id: u32,
)
    requires
        intern_post(pre, post, s, id),
    ensures
        post[id as int] == s,
{
}

} // verus!
