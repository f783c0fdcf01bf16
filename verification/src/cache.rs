//! The topology cache: a mapping from logical-resource name to the
//! list of physical endpoints currently advertised for it. An update
//! replaces a resource's whole list; a lookup sees either the old or
//! the fully new list, never a mix, because every operation takes the
//! cache by exclusive reference (callers that share it wrap it in a
//! lock, which keeps each operation atomic). An absent entry and an
//! empty list are equivalent for endpoint selection: both offer no
//! candidates.

use vstd::prelude::*;

verus! {

/// First-match lookup over an association list of
/// (resource, endpoints) pairs.
pub closed spec fn assoc_lookup(s: Seq<(String, Vec<String>)>, key: Seq<char>) -> Option<
    Seq<Seq<char>>,
>
    decreases s.len(),
{
    if s.len() == 0 {
        None
    } else if s[0].0@ == key {
        Some(s[0].1.deep_view())
    } else {
        assoc_lookup(s.skip(1), key)
    }
}

proof fn lemma_assoc_lookup_at(s: Seq<(String, Vec<String>)>, key: Seq<char>, i: int)
    requires
        0 <= i < s.len(),
        forall|j: int| 0 <= j < i ==> s[j].0@ != key,
        s[i].0@ == key,
    ensures
        assoc_lookup(s, key) == Some(s[i].1.deep_view()),
    decreases i,
{
    if i > 0 {
        lemma_assoc_lookup_at(s.skip(1), key, i - 1);
    }
}

proof fn lemma_assoc_lookup_none(s: Seq<(String, Vec<String>)>, key: Seq<char>)
    requires
        forall|j: int| 0 <= j < s.len() ==> s[j].0@ != key,
    ensures
        assoc_lookup(s, key) is None,
    decreases s.len(),
{
    if s.len() > 0 {
        lemma_assoc_lookup_none(s.skip(1), key);
    }
}

proof fn lemma_assoc_update_other(
    s: Seq<(String, Vec<String>)>,
    i: int,
    pair: (String, Vec<String>),
    key: Seq<char>,
)
    requires
        0 <= i < s.len(),
        s[i].0@ == pair.0@,
        key != pair.0@,
    ensures
        assoc_lookup(s.update(i, pair), key) == assoc_lookup(s, key),
    decreases i,
{
    let t = s.update(i, pair);
    assert(t.len() == s.len());
    if i == 0 {
        assert(t[0].0@ == s[0].0@);
        assert(t.skip(1) =~= s.skip(1));
    } else {
        assert(t[0] == s[0]);
        assert(t.skip(1) =~= s.skip(1).update(i - 1, pair));
        if s[0].0@ != key {
            lemma_assoc_update_other(s.skip(1), i - 1, pair, key);
        }
    }
}

proof fn lemma_assoc_push_other(
    s: Seq<(String, Vec<String>)>,
    pair: (String, Vec<String>),
    key: Seq<char>,
)
    requires
        key != pair.0@,
    ensures
        assoc_lookup(s.push(pair), key) == assoc_lookup(s, key),
    decreases s.len(),
{
    let t = s.push(pair);
    if s.len() == 0 {
        assert(t[0] == pair);
        assert(t.skip(1) =~= Seq::<(String, Vec<String>)>::empty());
        assert(assoc_lookup(t.skip(1), key) is None);
        assert(assoc_lookup(t, key) is None);
        assert(assoc_lookup(s, key) is None);
    } else {
        assert(t[0] == s[0]);
        assert(t.skip(1) =~= s.skip(1).push(pair));
        if s[0].0@ != key {
            lemma_assoc_push_other(s.skip(1), pair, key);
            assert(assoc_lookup(t, key) == assoc_lookup(t.skip(1), key));
            assert(assoc_lookup(s, key) == assoc_lookup(s.skip(1), key));
        }
    }
}

/// Each resource names at most one entry.
pub closed spec fn keys_unique(s: Seq<(String, Vec<String>)>) -> bool {
    forall|i: int, j: int| 0 <= i < j < s.len() ==> s[i].0@ != s[j].0@
}

proof fn lemma_keys_unique_update(
    s: Seq<(String, Vec<String>)>,
    i: int,
    pair: (String, Vec<String>),
)
    requires
        keys_unique(s),
        0 <= i < s.len(),
        s[i].0@ == pair.0@,
    ensures
        keys_unique(s.update(i, pair)),
{
    let t = s.update(i, pair);
    assert forall|a: int, b: int| 0 <= a < b < t.len() implies t[a].0@ != t[b].0@ by {
        assert(s[a].0@ != s[b].0@);
        assert(t[a].0@ == s[a].0@);
        assert(t[b].0@ == s[b].0@);
    }
}

proof fn lemma_keys_unique_push(s: Seq<(String, Vec<String>)>, pair: (String, Vec<String>))
    requires
        keys_unique(s),
        forall|j: int| 0 <= j < s.len() ==> s[j].0@ != pair.0@,
    ensures
        keys_unique(s.push(pair)),
{
    let t = s.push(pair);
    assert forall|a: int, b: int| 0 <= a < b < t.len() implies t[a].0@ != t[b].0@ by {
        if b < s.len() {
            assert(s[a].0@ != s[b].0@);
        } else {
            assert(s[a].0@ != pair.0@);
        }
    }
}

/// The per-resource topology cache.
#[derive(Debug)]
pub struct TopologyCache {
    entries: Vec<(String, Vec<String>)>,
}

impl TopologyCache {
    /// Well-formed: each resource holds at most one entry.
    pub closed spec fn wf(&self) -> bool {
        keys_unique(self.entries@)
    }

    /// The endpoints cached for `key`, or `None` where no entry exists.
    pub closed spec fn spec_lookup(&self, key: Seq<char>) -> Option<Seq<Seq<char>>> {
        assoc_lookup(self.entries@, key)
    }

    /// The candidates that endpoint selection sees for `key`: the
    /// cached list, with an absent entry offering no candidates —
    /// exactly as an empty list does.
    pub open spec fn spec_candidates(&self, key: Seq<char>) -> Seq<Seq<char>> {
        match self.spec_lookup(key) {
            Some(list) => list,
            None => Seq::empty(),
        }
    }

    /// An empty cache: no resource has an entry.
    pub fn new() -> (r: Self)
        ensures
            r.wf(),
            forall|k: Seq<char>| r.spec_lookup(k) is None,
    {
        let r = TopologyCache { entries: Vec::new() };
        proof {
            assert forall|k: Seq<char>| r.spec_lookup(k) is None by {
                lemma_assoc_lookup_none(r.entries@, k);
            }
        }
        r
    }

    /// Reads the endpoints cached for `resource`, as one atomic
    /// observation of the whole list.
    pub fn lookup(&self, resource: &str) -> (r: Option<Vec<String>>)
        ensures
            r is Some <==> self.spec_lookup(resource@) is Some,
            r matches Some(v) ==> Some(v.deep_view()) == self.spec_lookup(resource@),
    {
        let key = resource.to_owned();
        let n = self.entries.len();
        let mut i: usize = 0;
        while i < n
            invariant
                n == self.entries@.len(),
                i <= n,
                key@ == resource@,
                forall|j: int| 0 <= j < i ==> self.entries@[j].0@ != resource@,
            decreases n - i,
        {
            if self.entries[i].0 == key {
                let found = self.entries[i].1.clone();
                proof {
                    lemma_assoc_lookup_at(self.entries@, resource@, i as int);
                    assert(found.deep_view() =~= self.entries@[i as int].1.deep_view());
                }
                return Some(found);
            }
            i += 1;
        }
        proof {
            lemma_assoc_lookup_none(self.entries@, resource@);
        }
        None
    }

    /// Replaces — never merges — the endpoints cached for `resource`.
    /// Every other resource's entry is untouched.
    pub fn update(&mut self, resource: &str, endpoints: Vec<String>)
        requires
            old(self).wf(),
        ensures
            final(self).wf(),
            final(self).spec_lookup(resource@) == Some(endpoints.deep_view()),
            forall|k: Seq<char>|
                k != resource@ ==> final(self).spec_lookup(k) == old(self).spec_lookup(k),
    {
        let key = resource.to_owned();
        let ghost old_entries = old(self).entries@;
        let n = self.entries.len();
        let mut i: usize = 0;
        while i < n
            invariant
                n == self.entries@.len(),
                self.entries@ == old_entries,
                old_entries == old(self).entries@,
                keys_unique(old_entries),
                i <= n,
                key@ == resource@,
                forall|j: int| 0 <= j < i ==> self.entries@[j].0@ != resource@,
            decreases n - i,
        {
            if self.entries[i].0 == key {
                let ghost matched = self.entries@[i as int];
                let pair = (key, endpoints);
                self.entries.set(i, pair);
                proof {
                    assert(matched.0@ == resource@);
                    assert(pair.0@ == resource@);
                    assert(self.entries@ == old_entries.update(i as int, pair));
                    lemma_keys_unique_update(old_entries, i as int, pair);
                    assert forall|j: int| 0 <= j < i implies self.entries@[j].0@
                        != resource@ by {
                        assert(self.entries@[j] == old_entries[j]);
                    }
                    lemma_assoc_lookup_at(self.entries@, resource@, i as int);
                    assert(self.entries@[i as int].1 == endpoints);
                    assert forall|k: Seq<char>| k != resource@ implies assoc_lookup(
                        self.entries@,
                        k,
                    ) == assoc_lookup(old_entries, k) by {
                        lemma_assoc_update_other(old_entries, i as int, pair, k);
                    }
                }
                return ;
            }
            i += 1;
        }
        let pair = (key, endpoints);
        self.entries.push(pair);
        proof {
            assert(self.entries@ == old_entries.push(pair));
            lemma_keys_unique_push(old_entries, pair);
            assert forall|j: int| 0 <= j < old_entries.len() implies self.entries@[j].0@
                != resource@ by {
                assert(self.entries@[j] == old_entries[j]);
            }
            assert(self.entries@[old_entries.len() as int] == pair);
            lemma_assoc_lookup_at(self.entries@, resource@, old_entries.len() as int);
            assert(self.entries@[old_entries.len() as int].1 == endpoints);
            assert forall|k: Seq<char>| k != resource@ implies assoc_lookup(self.entries@, k)
                == assoc_lookup(old_entries, k) by {
                lemma_assoc_push_other(old_entries, pair, k);
            }
        }
    }
}

/// Law: for endpoint selection, a resource whose cached list is empty
/// behaves identically to a resource with no entry at all — neither
/// offers a candidate.
pub proof fn lemma_empty_topology_like_absent(a: TopologyCache, b: TopologyCache, r: Seq<char>)
    requires
        a.spec_lookup(r) is None,
        b.spec_lookup(r) == Some(Seq::<Seq<char>>::empty()),
    ensures
        a.spec_candidates(r) == b.spec_candidates(r),
        a.spec_candidates(r).len() == 0,
{
}

} // verus!
