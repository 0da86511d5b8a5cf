use vstd::prelude::*;

verus! {

/// An insertion-ordered mapping from names to values.
///
/// Documents address constants, templates and nodes by name; the passes
/// over a document must walk those collections in a reproducible order, so
/// the mapping keeps its entries as a sequence in insertion order with no
/// key occurring twice.
#[derive(Debug, Clone, PartialEq)]
pub struct NamedMap<V> {
    entries: Vec<(String, V)>,
}

impl<V> View for NamedMap<V> {
    type V = Seq<(Seq<char>, V)>;

    closed spec fn view(&self) -> Seq<(Seq<char>, V)> {
        self.entries@.map_values(|e: (String, V)| (e.0@, e.1))
    }
}

/// The first value stored under a key, if any.
pub open spec fn nm_get<V>(s: Seq<(Seq<char>, V)>, k: Seq<char>) -> Option<V>
    decreases s.len(),
{
    if s.len() == 0 {
        None
    } else if s[0].0 == k {
        Some(s[0].1)
    } else {
        nm_get(s.drop_first(), k)
    }
}

/// Whether a key occurs in the sequence of entries.
pub open spec fn nm_contains<V>(s: Seq<(Seq<char>, V)>, k: Seq<char>) -> bool {
    nm_get(s, k) is Some
}

/// No key occurs twice.
pub open spec fn nm_unique_keys<V>(s: Seq<(Seq<char>, V)>) -> bool {
    forall|i: int, j: int| 0 <= i < j < s.len() ==> s[i].0 != s[j].0
}

/// A key is present exactly when some entry carries it.
pub proof fn lemma_nm_get_present<V>(s: Seq<(Seq<char>, V)>, k: Seq<char>)
    ensures
        nm_contains(s, k) <==> exists|i: int| 0 <= i < s.len() && s[i].0 == k,
    decreases s.len(),
{
    if s.len() > 0 {
        if s[0].0 == k {
        } else {
            lemma_nm_get_present(s.drop_first(), k);
            if nm_contains(s.drop_first(), k) {
                let i = choose|i: int|
                    0 <= i < s.drop_first().len() && s.drop_first()[i].0 == k;
                assert(s[i + 1].0 == k);
            } else {
                assert(forall|i: int|
                    1 <= i < s.len() ==> s.drop_first()[i - 1] == s[i]);
            }
        }
    }
}

/// With unique keys, the entry at any index is the one `nm_get` finds.
pub proof fn lemma_nm_get_at_index<V>(s: Seq<(Seq<char>, V)>, i: int)
    requires
        nm_unique_keys(s),
        0 <= i < s.len(),
    ensures
        nm_get(s, s[i].0) == Some(s[i].1),
    decreases s.len(),
{
    if i == 0 {
    } else {
        assert(s[0].0 != s[i].0);
        lemma_nm_get_at_index(s.drop_first(), i - 1);
        assert(s.drop_first()[i - 1] == s[i]);
    }
}

impl<V> NamedMap<V> {
    /// An empty mapping.
    pub fn new() -> (r: NamedMap<V>)
        ensures
            r@ == Seq::<(Seq<char>, V)>::empty(),
            nm_unique_keys(r@),
    {
        let r = NamedMap { entries: Vec::new() };
        proof {
            assert(r@ =~= Seq::<(Seq<char>, V)>::empty());
        }
        r
    }

    /// How many names are bound.
    pub fn len(&self) -> (r: usize)
        ensures
            r == self@.len(),
    {
        self.entries.len()
    }

    /// The entry at a position, in insertion order.
    pub fn entry_at(&self, i: usize) -> (r: &(String, V))
        requires
            i < self@.len(),
        ensures
            (r.0@, r.1) == self@[i as int],
    {
        &self.entries[i]
    }

    /// The first value bound to the name, if any.
    pub fn get(&self, name: &String) -> (r: Option<&V>)
        ensures
            match r {
                Some(v) => nm_get(self@, name@) == Some(*v),
                None => nm_get(self@, name@) is None,
            },
    {
        let n = self.entries.len();
        let mut i: usize = 0;
        proof {
            assert(self@.skip(0) =~= self@);
        }
        while i < n
            invariant
                n == self@.len(),
                i <= n,
                nm_get(self@, name@) == nm_get(self@.skip(i as int), name@),
            decreases n - i,
        {
            proof {
                assert(self@.skip(i as int)[0] == self@[i as int]);
                assert(self@.skip(i as int).drop_first() =~= self@.skip(i as int + 1));
            }
            if self.entries[i].0 == *name {
                return Some(&self.entries[i].1);
            }
            i = i + 1;
        }
        proof {
            assert(self@.skip(n as int) =~= Seq::<(Seq<char>, V)>::empty());
        }
        None
    }

    /// Whether the name is bound.
    pub fn contains_name(&self, name: &String) -> (r: bool)
        ensures
            r == nm_contains(self@, name@),
    {
        match self.get(name) {
            Some(_) => true,
            None => false,
        }
    }

    /// Binds a value to a name: a fresh name is appended, keeping insertion
    /// order; an existing name has its value replaced in place.
    pub fn insert(&mut self, name: String, value: V)
        requires
            nm_unique_keys(old(self)@),
        ensures
            nm_unique_keys(final(self)@),
            final(self)@.len() == if nm_contains(old(self)@, name@) {
                old(self)@.len()
            } else {
                old(self)@.len() + 1
            },
            !nm_contains(old(self)@, name@) ==> final(self)@ == old(self)@.push((name@, value)),
            nm_get(final(self)@, name@) == Some(value),
            forall|k: Seq<char>| k != name@ ==> nm_get(final(self)@, k) == nm_get(old(self)@, k),
    {
        let n = self.entries.len();
        let mut i: usize = 0;
        while i < n
            invariant
                n == self@.len(),
                i <= n,
                nm_unique_keys(self@),
                self@ == old(self)@,
                forall|j: int| 0 <= j < i ==> self@[j].0 != name@,
            decreases n - i,
        {
            if self.entries[i].0 == *(&name) {
                self.entries[i].1 = value;
                proof {
                    assert(self@ =~= old(self)@.update(
                        i as int,
                        (name@, self@[i as int].1),
                    ));
                    lemma_nm_get_update(old(self)@, i as int, name@, self@[i as int].1);
                    lemma_nm_get_present(old(self)@, name@);
                }
                return ;
            }
            i = i + 1;
        }
        self.entries.push((name, value));
        proof {
            let prev = old(self)@;
            lemma_nm_get_present(prev, name@);
            assert(!nm_contains(prev, name@));
            assert(self@ =~= prev.push((name@, value)));
            lemma_nm_get_push(prev, name@, value);
        }
    }
}

/// Appending a fresh entry leaves every other lookup unchanged and makes
/// the new name resolve to the new value.
proof fn lemma_nm_get_push<V>(s: Seq<(Seq<char>, V)>, k: Seq<char>, v: V)
    requires
        !nm_contains(s, k),
    ensures
        nm_get(s.push((k, v)), k) == Some(v),
        forall|k2: Seq<char>| k2 != k ==> nm_get(s.push((k, v)), k2) == nm_get(s, k2),
        nm_unique_keys(s) ==> nm_unique_keys(s.push((k, v))),
    decreases s.len(),
{
    let t = s.push((k, v));
    if s.len() == 0 {
        assert(t[0] == (k, v));
        assert forall|k2: Seq<char>| k2 != k implies nm_get(t, k2) == nm_get(s, k2) by {
            assert(t.drop_first() =~= Seq::<(Seq<char>, V)>::empty());
            assert(nm_get(t.drop_first(), k2) is None);
        }
    } else {
        lemma_nm_get_push(s.drop_first(), k, v);
        assert(t.drop_first() =~= s.drop_first().push((k, v)));
        assert(t[0] == s[0]);
        assert forall|k2: Seq<char>| k2 != k implies nm_get(t, k2) == nm_get(s, k2) by {
            if s[0].0 == k2 {
            } else {
                assert(nm_get(t, k2) == nm_get(t.drop_first(), k2));
                assert(nm_get(t.drop_first(), k2) == nm_get(s.drop_first(), k2));
            }
        }
        assert(nm_get(t, k) == Some(v)) by {
            assert(s[0].0 != k);
        }
        if nm_unique_keys(s) {
            lemma_nm_get_present(s, k);
            assert forall|i: int, j: int| 0 <= i < j < t.len() implies t[i].0 != t[j].0 by {
                if j < s.len() {
                } else {
                    assert(t[j].0 == k);
                    assert(t[i].0 == s[i].0);
                }
            }
        }
    }
}

/// Replacing the value at an index, keeping its key, rewrites the lookup of
/// that key (when the keys are unique) and no other.
proof fn lemma_nm_get_update<V>(s: Seq<(Seq<char>, V)>, i: int, k: Seq<char>, v: V)
    requires
        nm_unique_keys(s),
        0 <= i < s.len(),
        s[i].0 == k,
    ensures
        nm_get(s.update(i, (k, v)), k) == Some(v),
        forall|k2: Seq<char>| k2 != k ==> nm_get(s.update(i, (k, v)), k2) == nm_get(s, k2),
        nm_unique_keys(s.update(i, (k, v))),
    decreases s.len(),
{
    let t = s.update(i, (k, v));
    if i == 0 {
        assert(t[0] == (k, v));
        assert forall|k2: Seq<char>| k2 != k implies nm_get(t, k2) == nm_get(s, k2) by {
            assert(t.drop_first() =~= s.drop_first());
        }
        assert forall|p: int, q: int| 0 <= p < q < t.len() implies t[p].0 != t[q].0 by {
            assert(t[p].0 == s[p].0);
            assert(t[q].0 == s[q].0);
        }
    } else {
        lemma_nm_get_update(s.drop_first(), i - 1, k, v);
        assert(t.drop_first() =~= s.drop_first().update(i - 1, (k, v)));
        assert(s[0].0 != k);
        assert(t[0] == s[0]);
        assert(nm_get(t, k) == nm_get(t.drop_first(), k));
        assert forall|k2: Seq<char>| k2 != k implies nm_get(t, k2) == nm_get(s, k2) by {
            if s[0].0 == k2 {
            } else {
                assert(nm_get(t, k2) == nm_get(t.drop_first(), k2));
                assert(nm_get(s, k2) == nm_get(s.drop_first(), k2));
            }
        }
        assert forall|p: int, q: int| 0 <= p < q < t.len() implies t[p].0 != t[q].0 by {
            if p == 0 {
                assert(t[q].0 == s.drop_first().update(i - 1, (k, v))[q - 1].0);
            } else {
                assert(t[p].0 == s.drop_first().update(i - 1, (k, v))[p - 1].0);
                assert(t[q].0 == s.drop_first().update(i - 1, (k, v))[q - 1].0);
            }
        }
    }
}

} // verus!
