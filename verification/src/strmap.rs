//! A string-keyed map kept as the sequence of its insertions.
//!
//! The installer tables are small, so lookups scan the pairs; the abstract
//! value is the [`Map`] that the insertions build, with later insertions
//! winning.

use vstd::prelude::*;

use crate::decode::str_eq;

verus! {

/// The mapping that a sequence of insertions builds: later pairs win.
pub open spec fn map_of(s: Seq<(String, String)>) -> Map<Seq<char>, Seq<char>>
    decreases s.len(),
{
    if s.len() == 0 {
        Map::empty()
    } else {
        map_of(s.drop_last()).insert(s.last().0@, s.last().1@)
    }
}

/// What a backwards scan of the pairs finds for a key.
pub open spec fn lookup(s: Seq<(String, String)>, k: Seq<char>) -> Option<Seq<char>>
    decreases s.len(),
{
    if s.len() == 0 {
        None
    } else if s.last().0@ == k {
        Some(s.last().1@)
    } else {
        lookup(s.drop_last(), k)
    }
}

/// The backwards scan agrees with the map the insertions build.
pub proof fn lemma_lookup_map(s: Seq<(String, String)>, k: Seq<char>)
    ensures
        match lookup(s, k) {
            Some(v) => map_of(s).contains_key(k) && map_of(s)[k] == v,
            None => !map_of(s).contains_key(k),
        },
    decreases s.len(),
{
    if s.len() == 0 {
    } else {
        lemma_lookup_map(s.drop_last(), k);
    }
}

/// The domain of the built map is finite.
pub proof fn lemma_map_of_finite(s: Seq<(String, String)>)
    ensures
        map_of(s).dom().finite(),
    decreases s.len(),
{
    if s.len() == 0 {
    } else {
        lemma_map_of_finite(s.drop_last());
    }
}

/// No more keys than insertions.
pub proof fn lemma_map_of_size(s: Seq<(String, String)>)
    ensures
        map_of(s).dom().len() <= s.len(),
    decreases s.len(),
{
    if s.len() == 0 {
        assert(map_of(s).dom() =~= Set::<Seq<char>>::empty());
    } else {
        lemma_map_of_size(s.drop_last());
        lemma_map_of_finite(s.drop_last());
        vstd::set::axiom_set_insert_len(map_of(s.drop_last()).dom(), s.last().0@);
        assert(map_of(s).dom() =~= map_of(s.drop_last()).dom().insert(s.last().0@));
    }
}

/// A string-keyed map, stored as its insertion sequence.
pub struct StrMap {
    pairs: Vec<(String, String)>,
}

impl View for StrMap {
    type V = Map<Seq<char>, Seq<char>>;

    closed spec fn view(&self) -> Map<Seq<char>, Seq<char>> {
        map_of(self.pairs@)
    }
}

impl StrMap {
    /// How many insertions built this map: an upper bound on its domain size.
    pub closed spec fn size(&self) -> nat {
        self.pairs@.len()
    }

    /// The domain is finite and no larger than `size`.
    pub proof fn lemma_size(&self)
        ensures
            self@.dom().finite(),
            self@.dom().len() <= self.size(),
    {
        lemma_map_of_finite(self.pairs@);
        lemma_map_of_size(self.pairs@);
    }

    pub fn new() -> (r: StrMap)
        ensures
            r@ == Map::<Seq<char>, Seq<char>>::empty(),
            r.size() == 0,
    {
        StrMap { pairs: Vec::new() }
    }

    pub fn len(&self) -> (r: usize)
        ensures
            r == self.size(),
    {
        self.pairs.len()
    }

    pub fn insert(&mut self, k: String, v: String)
        ensures
            final(self)@ == old(self)@.insert(k@, v@),
            final(self).size() == old(self).size() + 1,
    {
        self.pairs.push((k, v));
        proof {
            assert(self.pairs@.drop_last() =~= old(self).pairs@);
        }
    }

    /// The value the key was last inserted with, if any.
    pub fn get(&self, k: &str) -> (r: Option<String>)
        ensures
            match r {
                Some(v) => self@.contains_key(k@) && self@[k@] == v@,
                None => !self@.contains_key(k@),
            },
    {
        let mut i: usize = self.pairs.len();
        proof {
            assert(self.pairs@.subrange(0, i as int) =~= self.pairs@);
        }
        while i > 0
            invariant
                i <= self.pairs@.len(),
                lookup(self.pairs@.subrange(0, i as int), k@) == lookup(self.pairs@, k@),
            decreases i,
        {
            i = i - 1;
            let pair = &self.pairs[i];
            proof {
                assert(self.pairs@.subrange(0, i + 1).last() == self.pairs@[i as int]);
                assert(self.pairs@.subrange(0, i + 1).drop_last() =~= self.pairs@.subrange(
                    0,
                    i as int,
                ));
            }
            if str_eq(pair.0.as_str(), k) {
                proof {
                    lemma_lookup_map(self.pairs@, k@);
                }
                return Some(pair.1.clone());
            }
        }
        proof {
            assert(self.pairs@.subrange(0, 0) =~= Seq::<(String, String)>::empty());
            lemma_lookup_map(self.pairs@, k@);
        }
        None
    }
}

} // verus!
