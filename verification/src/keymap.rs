//! A small association map from byte-string keys to values, the shared
//! backing of the device store and the observer registry. Its mathematical
//! model is a `Map<Seq<u8>, T>`; the well-formedness invariant is that the
//! stored keys are pairwise distinct.

use vstd::prelude::*;

verus! {

/// Equality of two byte slices, decided element by element.
pub fn bytes_eq(a: &[u8], b: &[u8]) -> (r: bool)
    ensures
        r == (a@ == b@),
{
    if a.len() != b.len() {
        return false;
    }
    let mut i: usize = 0;
    while i < a.len()
        invariant
            0 <= i <= a@.len(),
            a@.len() == b@.len(),
            forall|j: int| 0 <= j < i ==> a@[j] == b@[j],
        decreases a@.len() - i,
    {
        if a[i] != b[i] {
            return false;
        }
        i = i + 1;
    }
    proof {
        assert(a@ =~= b@);
    }
    true
}

/// Append every byte of `s` to `out`.
pub fn append_bytes(out: &mut Vec<u8>, s: &[u8])
    ensures
        final(out)@ =~= old(out)@ + s@,
{
    let mut i: usize = 0;
    while i < s.len()
        invariant
            0 <= i <= s@.len(),
            out@ =~= old(out)@ + s@.take(i as int),
        decreases s@.len() - i,
    {
        out.push(s[i]);
        proof {
            assert(s@.take(i + 1) =~= s@.take(i as int).push(s@[i as int]));
        }
        i = i + 1;
    }
    proof {
        assert(s@.take(s@.len() as int) =~= s@);
    }
}

/// The map denoted by a sequence of key/value entries; a later entry for the
/// same key wins.
spec fn map_of<T>(s: Seq<(Vec<u8>, T)>) -> Map<Seq<u8>, T>
    decreases s.len(),
{
    if s.len() == 0 {
        Map::empty()
    } else {
        map_of(s.drop_last()).insert(s.last().0@, s.last().1)
    }
}

/// Whether the keys of the entry sequence are pairwise distinct.
spec fn distinct_keys<T>(s: Seq<(Vec<u8>, T)>) -> bool {
    forall|i: int, j: int| 0 <= i < j < s.len() ==> s[i].0@ != s[j].0@
}

proof fn lemma_map_of_contains<T>(s: Seq<(Vec<u8>, T)>, k: Seq<u8>)
    ensures
        map_of(s).contains_key(k) <==> exists|i: int| 0 <= i < s.len() && s[i].0@ == k,
    decreases s.len(),
{
    if s.len() == 0 {
    } else {
        lemma_map_of_contains(s.drop_last(), k);
        if map_of(s).contains_key(k) {
            if s.last().0@ == k {
                assert(s[s.len() - 1].0@ == k);
            } else {
                let i = choose|i: int| 0 <= i < s.drop_last().len() && s.drop_last()[i].0@ == k;
                assert(s[i].0@ == k);
            }
        }
        if exists|i: int| 0 <= i < s.len() && s[i].0@ == k {
            let i = choose|i: int| 0 <= i < s.len() && s[i].0@ == k;
            if i < s.len() - 1 {
                assert(s.drop_last()[i].0@ == k);
            }
        }
    }
}

proof fn lemma_map_of_index<T>(s: Seq<(Vec<u8>, T)>, i: int)
    requires
        distinct_keys(s),
        0 <= i < s.len(),
    ensures
        map_of(s).contains_key(s[i].0@),
        map_of(s)[s[i].0@] == s[i].1,
    decreases s.len(),
{
    if i == s.len() - 1 {
    } else {
        assert(s[i].0@ != s.last().0@);
        assert(s.drop_last()[i] == s[i]);
        lemma_map_of_index(s.drop_last(), i);
    }
}

proof fn lemma_map_of_finite<T>(s: Seq<(Vec<u8>, T)>)
    ensures
        map_of(s).dom().finite(),
    decreases s.len(),
{
    if s.len() == 0 {
    } else {
        lemma_map_of_finite(s.drop_last());
    }
}

proof fn lemma_map_of_len<T>(s: Seq<(Vec<u8>, T)>)
    requires
        distinct_keys(s),
    ensures
        map_of(s).dom().len() == s.len(),
    decreases s.len(),
{
    if s.len() == 0 {
        assert(map_of(s).dom() =~= Set::<Seq<u8>>::empty());
    } else {
        lemma_map_of_len(s.drop_last());
        lemma_map_of_finite(s.drop_last());
        lemma_map_of_contains(s.drop_last(), s.last().0@);
        assert(!map_of(s.drop_last()).contains_key(s.last().0@)) by {
            if exists|i: int|
                0 <= i < s.drop_last().len() && s.drop_last()[i].0@ == s.last().0@ {
                let i = choose|i: int|
                    0 <= i < s.drop_last().len() && s.drop_last()[i].0@ == s.last().0@;
                assert(s[i].0@ == s[s.len() - 1].0@);
            }
        }
        assert(map_of(s).dom() =~= map_of(s.drop_last()).dom().insert(s.last().0@));
    }
}

/// Replacing the value at entry `i` replaces the key's binding in the map.
proof fn lemma_map_of_update<T>(s: Seq<(Vec<u8>, T)>, i: int, e: (Vec<u8>, T))
    requires
        distinct_keys(s),
        0 <= i < s.len(),
        e.0@ == s[i].0@,
    ensures
        map_of(s.update(i, e)) =~= map_of(s).insert(e.0@, e.1),
        distinct_keys(s.update(i, e)),
    decreases s.len(),
{
    let t = s.update(i, e);
    assert(t.len() == s.len());
    if i == s.len() - 1 {
        assert(t.drop_last() =~= s.drop_last());
        assert(t.last() == e);
    } else {
        assert(t.drop_last() =~= s.drop_last().update(i, e));
        assert(s.drop_last()[i] == s[i]);
        lemma_map_of_update(s.drop_last(), i, e);
        assert(t.last() == s.last());
        assert(e.0@ != s.last().0@);
        assert(map_of(t) =~= map_of(s).insert(e.0@, e.1));
    }
}

/// A well-formed keyed map: the executable association list together with
/// the distinct-key invariant.
pub struct KeyMap<T> {
    entries: Vec<(Vec<u8>, T)>,
}

impl<T> KeyMap<T> {
    /// The mathematical map this structure denotes.
    pub closed spec fn view(&self) -> Map<Seq<u8>, T> {
        map_of(self.entries@)
    }

    /// Well-formedness: stored keys are pairwise distinct.
    pub closed spec fn wf(&self) -> bool {
        distinct_keys(self.entries@)
    }

    /// An empty map.
    pub fn new() -> (m: Self)
        ensures
            m.wf(),
            m@ =~= Map::<Seq<u8>, T>::empty(),
    {
        KeyMap { entries: Vec::new() }
    }

    /// Index of the entry holding `k`, if any.
    fn find(&self, k: &[u8]) -> (r: Option<usize>)
        requires
            self.wf(),
        ensures
            match r {
                Some(i) => i < self.entries@.len() && self.entries@[i as int].0@ == k@
                    && self@.contains_key(k@),
                None => !self@.contains_key(k@),
            },
    {
        let mut i: usize = 0;
        while i < self.entries.len()
            invariant
                self.wf(),
                0 <= i <= self.entries@.len(),
                forall|j: int| 0 <= j < i ==> self.entries@[j].0@ != k@,
            decreases self.entries@.len() - i,
        {
            if bytes_eq(self.entries[i].0.as_slice(), k) {
                proof {
                    lemma_map_of_index(self.entries@, i as int);
                }
                return Some(i);
            }
            i = i + 1;
        }
        proof {
            lemma_map_of_contains(self.entries@, k@);
        }
        None
    }

    /// The value bound to `k`, if any.
    pub fn read(&self, k: &[u8]) -> (r: Option<&T>)
        requires
            self.wf(),
        ensures
            match r {
                Some(v) => self@.contains_key(k@) && *v == self@[k@],
                None => !self@.contains_key(k@),
            },
    {
        match self.find(k) {
            Some(i) => {
                proof {
                    lemma_map_of_index(self.entries@, i as int);
                }
                Some(&self.entries[i].1)
            }
            None => None,
        }
    }

    /// Whether `k` is bound.
    pub fn contains(&self, k: &[u8]) -> (r: bool)
        requires
            self.wf(),
        ensures
            r == self@.contains_key(k@),
    {
        self.find(k).is_some()
    }

    /// Bind `k` to `v`, replacing any previous binding.
    pub fn write(&mut self, k: Vec<u8>, v: T)
        requires
            old(self).wf(),
        ensures
            final(self).wf(),
            final(self)@ =~= old(self)@.insert(k@, v),
    {
        let ghost s0 = self.entries@;
        match self.find(k.as_slice()) {
            Some(i) => {
                let mut pair = self.entries.remove(i);
                pair.1 = v;
                self.entries.insert(i, pair);
                proof {
                    assert(self.entries@ =~= s0.update(i as int, (s0[i as int].0, v)));
                    lemma_map_of_update(s0, i as int, (s0[i as int].0, v));
                }
            }
            None => {
                self.entries.push((k, v));
                proof {
                    assert(self.entries@.drop_last() =~= s0);
                    lemma_map_of_contains(s0, k@);
                    assert forall|i: int, j: int|
                        0 <= i < j < self.entries@.len() implies self.entries@[i].0@
                        != self.entries@[j].0@ by {
                        if j == self.entries@.len() - 1 {
                            assert(self.entries@[i] == s0[i]);
                        }
                    }
                }
            }
        }
    }

    /// Number of bound keys.
    pub fn size(&self) -> (n: usize)
        requires
            self.wf(),
        ensures
            n == self@.dom().len(),
    {
        proof {
            lemma_map_of_len(self.entries@);
        }
        self.entries.len()
    }
}

} // verus!
