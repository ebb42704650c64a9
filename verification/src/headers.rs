//! A header mapping with string keys and values, viewed as a
//! `Map<Seq<char>, Seq<char>>`.

use vstd::prelude::*;

use crate::text::str_eq;

verus! {

/// A mapping from header names to header values. Keys are unique.
pub struct HeaderMap {
    entries: Vec<(String, String)>,
}

/// The mapping denoted by a sequence of key/value pairs; a later pair with
/// the same key wins.
spec fn pairs_map(s: Seq<(String, String)>) -> Map<Seq<char>, Seq<char>>
    decreases s.len(),
{
    if s.len() == 0 {
        Map::empty()
    } else {
        pairs_map(s.drop_last()).insert(s.last().0@, s.last().1@)
    }
}

/// No two pairs share a key.
spec fn distinct_keys(s: Seq<(String, String)>) -> bool {
    forall|i: int, j: int| 0 <= i < j < s.len() ==> (#[trigger] s[i]).0@ != (#[trigger] s[j]).0@
}

proof fn lemma_pairs_map_contains(s: Seq<(String, String)>)
    ensures
        forall|k: Seq<char>|
            pairs_map(s).contains_key(k) <==> exists|i: int|
                0 <= i < s.len() && (#[trigger] s[i]).0@ == k,
        pairs_map(s).dom().finite(),
    decreases s.len(),
{
    if s.len() > 0 {
        lemma_pairs_map_contains(s.drop_last());
        assert forall|k: Seq<char>| pairs_map(s).contains_key(k) implies exists|i: int|
            0 <= i < s.len() && (#[trigger] s[i]).0@ == k by {
            if k == s.last().0@ {
                assert((s[s.len() - 1]).0@ == k);
            } else {
                let i = choose|i: int| 0 <= i < s.drop_last().len() && (#[trigger] s.drop_last()[i]).0@ == k;
                assert((s[i]).0@ == k);
            }
        }
        assert forall|k: Seq<char>| (exists|i: int| 0 <= i < s.len() && (#[trigger] s[i]).0@ == k)
            implies pairs_map(s).contains_key(k) by {
            let i = choose|i: int| 0 <= i < s.len() && (#[trigger] s[i]).0@ == k;
            if i < s.len() - 1 {
                assert(s.drop_last()[i] == s[i]);
            }
        }
    }
}

proof fn lemma_pairs_map_value(s: Seq<(String, String)>, i: int)
    requires
        distinct_keys(s),
        0 <= i < s.len(),
    ensures
        pairs_map(s).contains_key(s[i].0@),
        pairs_map(s)[s[i].0@] == s[i].1@,
    decreases s.len(),
{
    if i == s.len() - 1 {
    } else {
        assert(s[i].0@ != s.last().0@);
        assert(s.drop_last()[i] == s[i]);
        lemma_pairs_map_value(s.drop_last(), i);
    }
}

proof fn lemma_pairs_map_update(s: Seq<(String, String)>, i: int, p: (String, String))
    requires
        distinct_keys(s),
        0 <= i < s.len(),
        p.0@ == s[i].0@,
    ensures
        pairs_map(s.update(i, p)) == pairs_map(s).insert(p.0@, p.1@),
        distinct_keys(s.update(i, p)),
    decreases s.len(),
{
    let su = s.update(i, p);
    assert forall|a: int, b: int| 0 <= a < b < su.len() implies (#[trigger] su[a]).0@
        != (#[trigger] su[b]).0@ by {
        assert(s[a].0@ != s[b].0@);
    }
    if i == s.len() - 1 {
        assert(su.drop_last() =~= s.drop_last());
        assert(su.last() == p);
        assert(pairs_map(s.drop_last()).insert(s.last().0@, s.last().1@).insert(p.0@, p.1@)
            =~= pairs_map(s.drop_last()).insert(p.0@, p.1@));
    } else {
        assert(su.drop_last() =~= s.drop_last().update(i, p));
        assert(su.last() == s.last());
        assert(s.drop_last()[i] == s[i]);
        lemma_pairs_map_update(s.drop_last(), i, p);
        assert(s[i].0@ != s.last().0@);
        assert(pairs_map(s.drop_last()).insert(p.0@, p.1@).insert(s.last().0@, s.last().1@)
            =~= pairs_map(s.drop_last()).insert(s.last().0@, s.last().1@).insert(p.0@, p.1@));
    }
}

proof fn lemma_pairs_map_len(s: Seq<(String, String)>)
    requires
        distinct_keys(s),
    ensures
        pairs_map(s).dom().finite(),
        pairs_map(s).dom().len() == s.len(),
    decreases s.len(),
{
    lemma_pairs_map_contains(s);
    if s.len() > 0 {
        let dl = s.drop_last();
        lemma_pairs_map_len(dl);
        lemma_pairs_map_contains(dl);
        assert forall|i: int| 0 <= i < dl.len() implies (#[trigger] dl[i]).0@ != s.last().0@ by {
            assert(s[i].0@ != s[s.len() - 1].0@);
        }
        assert(!pairs_map(dl).contains_key(s.last().0@));
        assert(pairs_map(s).dom() =~= pairs_map(dl).dom().insert(s.last().0@));
    }
}

impl View for HeaderMap {
    type V = Map<Seq<char>, Seq<char>>;

    closed spec fn view(&self) -> Map<Seq<char>, Seq<char>> {
        pairs_map(self.entries@)
    }
}

impl HeaderMap {
    /// The internal key uniqueness invariant.
    pub closed spec fn wf(&self) -> bool {
        distinct_keys(self.entries@)
    }

    /// An empty header mapping.
    pub fn new() -> (r: HeaderMap)
        ensures
            r@ == Map::<Seq<char>, Seq<char>>::empty(),
            r.wf(),
    {
        HeaderMap { entries: Vec::new() }
    }

    /// The number of headers held.
    pub fn len(&self) -> (r: usize)
        requires
            self.wf(),
        ensures
            r == self@.dom().len(),
    {
        proof {
            lemma_pairs_map_len(self.entries@);
        }
        self.entries.len()
    }

    /// Looks a header up by name.
    pub fn get(&self, key: &str) -> (r: Option<&String>)
        requires
            self.wf(),
        ensures
            match r {
                Some(v) => self@.contains_key(key@) && self@[key@] == v@,
                None => !self@.contains_key(key@),
            },
    {
        proof {
            lemma_pairs_map_contains(self.entries@);
        }
        let n = self.entries.len();
        let mut i: usize = 0;
        while i < n
            invariant
                i <= n,
                n == self.entries@.len(),
                self.wf(),
                forall|j: int| 0 <= j < i ==> (#[trigger] self.entries@[j]).0@ != key@,
            decreases n - i,
        {
            if str_eq(self.entries[i].0.as_str(), key) {
                proof {
                    lemma_pairs_map_value(self.entries@, i as int);
                }
                return Some(&self.entries[i].1);
            }
            i = i + 1;
        }
        proof {
            lemma_pairs_map_contains(self.entries@);
        }
        None
    }

    /// Inserts a header, overwriting the value of an equal key.
    pub fn insert(&mut self, key: String, value: String)
        requires
            old(self).wf(),
        ensures
            final(self)@ == old(self)@.insert(key@, value@),
            final(self).wf(),
    {
        let n = self.entries.len();
        let mut i: usize = 0;
        while i < n
            invariant
                i <= n,
                n == self.entries@.len(),
                self.wf(),
                self.entries@ == old(self).entries@,
                forall|j: int| 0 <= j < i ==> (#[trigger] self.entries@[j]).0@ != key@,
            decreases n - i,
        {
            if str_eq(self.entries[i].0.as_str(), key.as_str()) {
                proof {
                    lemma_pairs_map_update(self.entries@, i as int, (key, value));
                }
                self.entries.set(i, (key, value));
                return;
            }
            i = i + 1;
        }
        proof {
            let s = self.entries@;
            let p = (key, value);
            assert(s.push(p).drop_last() =~= s);
            assert(s.push(p).last() == p);
            assert forall|a: int, b: int| 0 <= a < b < s.push(p).len() implies (#[trigger] s.push(
                p,
            )[a]).0@ != (#[trigger] s.push(p)[b]).0@ by {
                if b < s.len() {
                    assert(s[a].0@ != s[b].0@);
                } else {
                    assert(s.push(p)[a] == s[a]);
                }
            }
        }
        self.entries.push((key, value));
    }

    /// A copy of this mapping.
    pub fn duplicate(&self) -> (r: HeaderMap)
        ensures
            r@ == self@,
            self.wf() ==> r.wf(),
    {
        let n = self.entries.len();
        let mut out: Vec<(String, String)> = Vec::new();
        let mut i: usize = 0;
        while i < n
            invariant
                i <= n,
                n == self.entries@.len(),
                out@ =~= self.entries@.take(i as int),
            decreases n - i,
        {
            let k = self.entries[i].0.clone();
            let v = self.entries[i].1.clone();
            proof {
                assert(self.entries@.take(i as int + 1) =~= self.entries@.take(i as int).push(
                    self.entries@[i as int],
                ));
            }
            out.push((k, v));
            i = i + 1;
        }
        proof {
            assert(out@ =~= self.entries@);
        }
        HeaderMap { entries: out }
    }

    /// The union of `self` and `over`; where both hold a key, `over`'s
    /// value wins.
    pub fn overridden_by(&self, over: &HeaderMap) -> (r: HeaderMap)
        requires
            self.wf(),
            over.wf(),
        ensures
            r@ == self@.union_prefer_right(over@),
            r.wf(),
    {
        let mut out = self.duplicate();
        let n = over.entries.len();
        let mut i: usize = 0;
        proof {
            assert(out@ =~= self@.union_prefer_right(pairs_map(over.entries@.take(0))));
        }
        while i < n
            invariant
                i <= n,
                n == over.entries@.len(),
                over.wf(),
                self.wf(),
                out.wf(),
                out@ == self@.union_prefer_right(pairs_map(over.entries@.take(i as int))),
            decreases n - i,
        {
            let k = over.entries[i].0.clone();
            let v = over.entries[i].1.clone();
            proof {
                let t = over.entries@.take(i as int);
                let t1 = over.entries@.take(i as int + 1);
                assert(t1.drop_last() =~= t);
                assert(t1.last() == over.entries@[i as int]);
                assert(self@.union_prefer_right(pairs_map(t)).insert(k@, v@)
                    =~= self@.union_prefer_right(pairs_map(t).insert(k@, v@)));
            }
            out.insert(k, v);
            i = i + 1;
        }
        proof {
            assert(over.entries@.take(n as int) =~= over.entries@);
        }
        out
    }
}

} // verus!
