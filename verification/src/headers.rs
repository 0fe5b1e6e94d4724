use vstd::prelude::*;

use crate::text::str_eq;

verus! {

// ---------------------------------------------------------------------------
// Specification of an insertion-ordered mapping with upsert semantics
// ---------------------------------------------------------------------------

/// Position of the first entry holding key `k`, or -1 when no entry does.
pub open spec fn find_key(s: Seq<(Seq<char>, Seq<char>)>, k: Seq<char>) -> int
    decreases s.len(),
{
    if s.len() == 0 {
        -1
    } else if s[0].0 == k {
        0
    } else {
        let r = find_key(s.drop_first(), k);
        if r < 0 {
            -1
        } else {
            r + 1
        }
    }
}

/// Some entry holds key `k`.
pub open spec fn has_key(s: Seq<(Seq<char>, Seq<char>)>, k: Seq<char>) -> bool {
    find_key(s, k) >= 0
}

/// The value stored under key `k`, if any.
pub open spec fn lookup(s: Seq<(Seq<char>, Seq<char>)>, k: Seq<char>) -> Option<Seq<char>> {
    if has_key(s, k) {
        Some(s[find_key(s, k)].1)
    } else {
        None
    }
}

/// Insert-or-update: an existing entry keeps its position and takes the new
/// value; a new key goes to the end.
pub open spec fn upsert(
    s: Seq<(Seq<char>, Seq<char>)>,
    k: Seq<char>,
    v: Seq<char>,
) -> Seq<(Seq<char>, Seq<char>)> {
    if has_key(s, k) {
        s.update(find_key(s, k), (k, v))
    } else {
        s.push((k, v))
    }
}

/// `find_key` names the first entry with the key, and -1 only when the key
/// is absent.
pub proof fn lemma_find_key(s: Seq<(Seq<char>, Seq<char>)>, k: Seq<char>)
    ensures
        find_key(s, k) == -1 ==> forall|i: int| 0 <= i < s.len() ==> s[i].0 != k,
        find_key(s, k) >= 0 ==> find_key(s, k) < s.len() && s[find_key(s, k)].0 == k && (forall|
            i: int,
        |
            0 <= i < find_key(s, k) ==> s[i].0 != k),
    decreases s.len(),
{
    if s.len() > 0 && s[0].0 != k {
        let t = s.drop_first();
        lemma_find_key(t, k);
        if find_key(s, k) == -1 {
            assert forall|i: int| 0 <= i < s.len() implies s[i].0 != k by {
                if i >= 1 {
                    assert(t[i - 1] == s[i]);
                    assert(t[i - 1].0 != k);
                }
            }
        } else {
            let f = find_key(s, k);
            assert(s[f] == t[f - 1]);
            assert forall|i: int| 0 <= i < f implies s[i].0 != k by {
                if i >= 1 {
                    assert(t[i - 1] == s[i]);
                    assert(t[i - 1].0 != k);
                }
            }
        }
    }
}

/// Keys are pairwise distinct.
pub open spec fn unique_keys(s: Seq<(Seq<char>, Seq<char>)>) -> bool {
    forall|i: int, j: int| 0 <= i < j < s.len() ==> s[i].0 != s[j].0
}

/// An upsert keeps keys pairwise distinct.
pub proof fn lemma_upsert_wf(s: Seq<(Seq<char>, Seq<char>)>, k: Seq<char>, v: Seq<char>)
    requires
        unique_keys(s),
    ensures
        unique_keys(upsert(s, k, v)),
{
    let u = upsert(s, k, v);
    lemma_find_key(s, k);
    if has_key(s, k) {
        let f = find_key(s, k);
        assert forall|i: int, j: int| 0 <= i < j < u.len() implies u[i].0 != u[j].0 by {
            assert(u[i].0 == s[i].0);
            assert(u[j].0 == s[j].0);
            assert(s[i].0 != s[j].0);
        }
    } else {
        assert forall|i: int, j: int| 0 <= i < j < u.len() implies u[i].0 != u[j].0 by {
            assert(u[i].0 == s[i].0);
            if j == s.len() {
                assert(u[j].0 == k);
                assert(s[i].0 != k);
            } else {
                assert(u[j].0 == s[j].0);
                assert(s[i].0 != s[j].0);
            }
        }
    }
}

/// A position that holds the key, with no earlier position holding it, is
/// exactly what `find_key` returns.
pub proof fn lemma_find_key_is(s: Seq<(Seq<char>, Seq<char>)>, k: Seq<char>, i: int)
    requires
        0 <= i < s.len(),
        s[i].0 == k,
        forall|t: int| 0 <= t < i ==> s[t].0 != k,
    ensures
        find_key(s, k) == i,
{
    lemma_find_key(s, k);
    let f = find_key(s, k);
    if f == -1 {
        assert(s[i].0 != k);
    } else {
        if f < i {
            assert(s[f].0 != k);
        }
        if f > i {
            assert(s[i].0 != k);
        }
    }
}

// ---------------------------------------------------------------------------
// The executable header mapping
// ---------------------------------------------------------------------------

/// A mapping from header names to header values.  Keys are unique and
/// case-sensitive; entries keep the order in which their keys first arrived,
/// and writing an existing key again replaces its value in place.
#[derive(Clone, Debug)]
pub struct HeaderMap {
    entries: Vec<(String, String)>,
}

impl View for HeaderMap {
    type V = Seq<(Seq<char>, Seq<char>)>;

    closed spec fn view(&self) -> Seq<(Seq<char>, Seq<char>)> {
        self.entries.deep_view()
    }
}

impl HeaderMap {
    /// Keys are pairwise distinct.
    pub open spec fn wf(&self) -> bool {
        unique_keys(self@)
    }

    /// An empty mapping.
    pub fn new() -> (r: Self)
        ensures
            r@ == Seq::<(Seq<char>, Seq<char>)>::empty(),
            r.wf(),
    {
        let r = HeaderMap { entries: Vec::new() };
        proof {
            assert(r@ =~= Seq::<(Seq<char>, Seq<char>)>::empty());
        }
        r
    }

    /// How many entries the mapping holds.
    pub fn len(&self) -> (r: usize)
        ensures
            r == self@.len(),
    {
        self.entries.len()
    }

    /// Whether the mapping holds no entry.
    pub fn is_empty(&self) -> (r: bool)
        ensures
            r == (self@.len() == 0),
    {
        self.entries.len() == 0
    }

    /// The name of the entry at a position.
    pub fn key_at(&self, i: usize) -> (r: &String)
        requires
            i < self@.len(),
        ensures
            r@ == self@[i as int].0,
    {
        &self.entries[i].0
    }

    /// The value of the entry at a position.
    pub fn value_at(&self, i: usize) -> (r: &String)
        requires
            i < self@.len(),
        ensures
            r@ == self@[i as int].1,
    {
        &self.entries[i].1
    }

    /// Whether an entry holds the key.
    pub fn contains_key(&self, key: &str) -> (r: bool)
        ensures
            r == has_key(self@, key@),
    {
        let n = self.entries.len();
        let mut i: usize = 0;
        while i < n
            invariant
                i <= n,
                n == self@.len(),
                forall|t: int| 0 <= t < i ==> self@[t].0 != key@,
            decreases n - i,
        {
            let e = &self.entries[i];
            if str_eq(e.0.as_str(), key) {
                proof {
                    lemma_find_key_is(self@, key@, i as int);
                }
                return true;
            }
            i += 1;
        }
        proof {
            lemma_find_key(self@, key@);
            if find_key(self@, key@) >= 0 {
                assert(self@[find_key(self@, key@)].0 != key@);
            }
        }
        false
    }

    /// The value stored under the key, if any.
    pub fn get(&self, key: &str) -> (r: Option<String>)
        ensures
            match r {
                Some(v) => lookup(self@, key@) == Some(v@),
                None => lookup(self@, key@) is None,
            },
    {
        let n = self.entries.len();
        let mut i: usize = 0;
        while i < n
            invariant
                i <= n,
                n == self@.len(),
                forall|t: int| 0 <= t < i ==> self@[t].0 != key@,
            decreases n - i,
        {
            let e = &self.entries[i];
            if str_eq(e.0.as_str(), key) {
                proof {
                    lemma_find_key_is(self@, key@, i as int);
                }
                return Some(e.1.clone());
            }
            i += 1;
        }
        proof {
            lemma_find_key(self@, key@);
            if find_key(self@, key@) >= 0 {
                assert(self@[find_key(self@, key@)].0 != key@);
            }
        }
        None
    }

    /// Writes the value under the key: replaces in place when the key is
    /// present, appends at the end when it is new.
    pub fn insert(&mut self, key: String, value: String)
        requires
            old(self).wf(),
        ensures
            final(self)@ == upsert(old(self)@, key@, value@),
            final(self).wf(),
    {
        let n = self.entries.len();
        let mut i: usize = 0;
        while i < n
            invariant
                i <= n,
                n == self@.len(),
                *self == *old(self),
                old(self).wf(),
                forall|t: int| 0 <= t < i ==> self@[t].0 != key@,
            decreases n - i,
        {
            let eq = {
                let e = &self.entries[i];
                str_eq(e.0.as_str(), key.as_str())
            };
            if eq {
                proof {
                    lemma_find_key_is(self@, key@, i as int);
                }
                let ghost prev = self@;
                let ghost prev_v = self.entries@;
                self.entries[i] = (key, value);
                proof {
                    assert(self.entries@ == prev_v.update(i as int, (key, value)));
                    assert(self.entries@.len() == n);
                    assert(self@.len() == n);
                    assert forall|t: int| 0 <= t < n && t != i implies #[trigger] self@[t]
                        == prev[t] by {
                        assert(self.entries@[t] == prev_v[t]);
                    }
                    assert(self@[i as int] == (key@, value@));
                    assert(self@ =~~= upsert(old(self)@, key@, value@));
                    lemma_upsert_wf(old(self)@, key@, value@);
                }
                return ;
            }
            i += 1;
        }
        proof {
            lemma_find_key(self@, key@);
            if find_key(self@, key@) >= 0 {
                assert(self@[find_key(self@, key@)].0 != key@);
            }
        }
        let ghost prev = self@;
        let ghost prev_v = self.entries@;
        let ghost n_old = self.entries@.len();
        self.entries.push((key, value));
        proof {
            assert(self.entries@.len() == n_old + 1);
            assert(self@.len() == n_old + 1);
            assert forall|t: int| 0 <= t < n_old implies #[trigger] self@[t] == prev[t] by {
                assert(self.entries@[t] == prev_v[t]);
            }
            assert(self.entries@[n_old as int].0 == key);
            assert(self@[n_old as int] == (key@, value@));
            assert(self@ =~~= upsert(old(self)@, key@, value@));
            lemma_upsert_wf(old(self)@, key@, value@);
        }
    }

    /// Takes the entry with the key out, closing the gap; a mapping without
    /// the key stays as it is.
    pub fn remove(&mut self, key: &str)
        requires
            old(self).wf(),
        ensures
            final(self).wf(),
            has_key(old(self)@, key@) ==> final(self)@ == old(self)@.remove(
                find_key(old(self)@, key@),
            ),
            !has_key(old(self)@, key@) ==> final(self)@ == old(self)@,
    {
        let n = self.entries.len();
        let mut i: usize = 0;
        while i < n
            invariant
                i <= n,
                n == self@.len(),
                *self == *old(self),
                old(self).wf(),
                forall|t: int| 0 <= t < i ==> self@[t].0 != key@,
            decreases n - i,
        {
            let found = {
                let e = &self.entries[i];
                str_eq(e.0.as_str(), key)
            };
            if found {
                proof {
                    lemma_find_key_is(self@, key@, i as int);
                }
                let ghost prev = self@;
                let ghost prev_v = self.entries@;
                self.entries.remove(i);
                proof {
                    assert(self.entries@ == prev_v.remove(i as int));
                    assert(self@.len() == n - 1);
                    assert forall|t: int| 0 <= t < n - 1 implies #[trigger] self@[t] == prev.remove(
                        i as int,
                    )[t] by {
                        if t < i {
                            assert(self.entries@[t] == prev_v[t]);
                            assert(prev.remove(i as int)[t] == prev[t]);
                        } else {
                            assert(self.entries@[t] == prev_v[t + 1]);
                            assert(prev.remove(i as int)[t] == prev[t + 1]);
                        }
                    }
                    assert(self@ =~~= prev.remove(i as int));
                    assert forall|a: int, b: int| 0 <= a < b < self@.len() implies self@[a].0
                        != self@[b].0 by {
                        let a2 = if a < i {
                            a
                        } else {
                            a + 1
                        };
                        let b2 = if b < i {
                            b
                        } else {
                            b + 1
                        };
                        assert(self@[a].0 == prev[a2].0);
                        assert(self@[b].0 == prev[b2].0);
                        assert(prev[a2].0 != prev[b2].0);
                    }
                }
                return ;
            }
            i += 1;
        }
        proof {
            lemma_find_key(self@, key@);
            if find_key(self@, key@) >= 0 {
                assert(self@[find_key(self@, key@)].0 != key@);
            }
        }
    }

    /// Whether the keys are pairwise distinct, decided at run time.  Every
    /// mapping built through this interface passes; the check lets an
    /// embedding program establish it for a mapping of unknown history.
    pub fn keys_unique(&self) -> (r: bool)
        ensures
            r == unique_keys(self@),
    {
        let n = self.entries.len();
        let mut i: usize = 0;
        while i < n
            invariant
                i <= n,
                n == self@.len(),
                forall|a: int, b: int| 0 <= a < b < i ==> self@[a].0 != self@[b].0,
            decreases n - i,
        {
            let mut j: usize = 0;
            while j < i
                invariant
                    j <= i < n,
                    n == self@.len(),
                    forall|a: int| 0 <= a < j ==> self@[a].0 != self@[i as int].0,
                decreases i - j,
            {
                let same = {
                    let a = &self.entries[j];
                    let b = &self.entries[i];
                    str_eq(a.0.as_str(), b.0.as_str())
                };
                if same {
                    proof {
                        assert(self@[j as int].0 == self@[i as int].0);
                        if unique_keys(self@) {
                            assert(self@[j as int].0 != self@[i as int].0);
                        }
                    }
                    return false;
                }
                j += 1;
            }
            i += 1;
        }
        true
    }

    /// An independent copy with the same entries.
    pub fn duplicate(&self) -> (r: Self)
        ensures
            r@ == self@,
    {
        let n = self.entries.len();
        let mut out: Vec<(String, String)> = Vec::new();
        let mut i: usize = 0;
        while i < n
            invariant
                i <= n,
                n == self@.len(),
                out.deep_view() == self@.subrange(0, i as int),
            decreases n - i,
        {
            let ghost prev = out.deep_view();
            let ghost prev_v = out@;
            proof {
                assert(self@.subrange(0, i as int).len() == i);
                assert(prev.len() == i);
                assert(prev_v.len() == i);
            }
            let e = &self.entries[i];
            out.push((e.0.clone(), e.1.clone()));
            proof {
                assert(out@.len() == i + 1);
                assert(out.deep_view().len() == i + 1);
                assert forall|t: int| 0 <= t <= i implies #[trigger] out.deep_view()[t]
                    == self@[t] by {
                    if t < i {
                        assert(out@[t] == prev_v[t]);
                        assert(prev[t] == self@.subrange(0, i as int)[t]);
                    } else {
                        assert(out@[t].0 == self.entries@[t].0);
                        assert(out@[t].1 == self.entries@[t].1);
                    }
                }
                assert(out.deep_view() =~~= self@.subrange(0, i + 1 as int));
            }
            i += 1;
        }
        let r = HeaderMap { entries: out };
        proof {
            assert(self@.subrange(0, n as int) =~= self@);
        }
        r
    }
}

// ---------------------------------------------------------------------------
// Laws of the upsert operation
// ---------------------------------------------------------------------------

/// Looking a key up right after writing it yields the written value.
pub proof fn lemma_lookup_upsert(s: Seq<(Seq<char>, Seq<char>)>, k: Seq<char>, v: Seq<char>)
    ensures
        lookup(upsert(s, k, v), k) == Some(v),
{
    lemma_find_key(s, k);
    if has_key(s, k) {
        let i = find_key(s, k);
        let u = s.update(i, (k, v));
        lemma_find_key_is(u, k, i);
    } else {
        let u = s.push((k, v));
        lemma_find_key_is(u, k, s.len() as int);
    }
}

/// Writing the same key twice keeps only the later value: the first write
/// leaves no trace in the mapping.
pub proof fn lemma_upsert_latest(
    s: Seq<(Seq<char>, Seq<char>)>,
    k: Seq<char>,
    v1: Seq<char>,
    v2: Seq<char>,
)
    ensures
        upsert(upsert(s, k, v1), k, v2) == upsert(s, k, v2),
        lookup(upsert(upsert(s, k, v1), k, v2), k) == Some(v2),
{
    lemma_find_key(s, k);
    if has_key(s, k) {
        let i = find_key(s, k);
        let u1 = s.update(i, (k, v1));
        lemma_find_key_is(u1, k, i);
        assert(upsert(u1, k, v2) =~~= upsert(s, k, v2));
    } else {
        let u1 = s.push((k, v1));
        lemma_find_key_is(u1, k, s.len() as int);
        assert(upsert(u1, k, v2) =~~= upsert(s, k, v2));
    }
    lemma_lookup_upsert(upsert(s, k, v1), k, v2);
}

} // verus!
