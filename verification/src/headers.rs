use vstd::prelude::*;

verus! {

/// The views of a sequence of string pairs.
pub open spec fn pairs_view(ps: Seq<(String, String)>) -> Seq<(Seq<char>, Seq<char>)> {
    ps.map_values(|p: (String, String)| (p.0@, p.1@))
}

/// The mapping that inserting the pairs in order builds: a pair overwrites
/// any earlier pair with the same key.
pub open spec fn assoc_map(ps: Seq<(Seq<char>, Seq<char>)>) -> Map<Seq<char>, Seq<char>>
    decreases ps.len(),
{
    if ps.len() == 0 {
        Map::empty()
    } else {
        assoc_map(ps.drop_last()).insert(ps.last().0, ps.last().1)
    }
}

/// The value of the last pair whose key is `k`, if any.
pub open spec fn last_value(ps: Seq<(Seq<char>, Seq<char>)>, k: Seq<char>) -> Option<Seq<char>>
    decreases ps.len(),
{
    if ps.len() == 0 {
        None
    } else if ps.last().0 == k {
        Some(ps.last().1)
    } else {
        last_value(ps.drop_last(), k)
    }
}

/// In the mapping built from a sequence of key/value pairs, every key that
/// occurs at all is present, and its value is the value of its last
/// occurrence; a key that never occurs is absent.
pub proof fn lemma_last_occurrence_wins(ps: Seq<(Seq<char>, Seq<char>)>, k: Seq<char>)
    ensures
        match last_value(ps, k) {
            Some(v) => assoc_map(ps).contains_key(k) && assoc_map(ps)[k] == v,
            None => !assoc_map(ps).contains_key(k),
        },
    decreases ps.len(),
{
    if ps.len() > 0 {
        lemma_last_occurrence_wins(ps.drop_last(), k);
    }
}

/// A header mapping: header names to values, a later insertion overwriting
/// an earlier one with the same name. Names are case-sensitive as received.
#[derive(Debug)]
pub struct Headers {
    pairs: Vec<(String, String)>,
}

impl View for Headers {
    type V = Map<Seq<char>, Seq<char>>;

    closed spec fn view(&self) -> Map<Seq<char>, Seq<char>> {
        assoc_map(pairs_view(self.pairs@))
    }
}

impl Headers {
    /// An empty header mapping.
    pub fn new() -> (h: Headers)
        ensures
            h@ == Map::<Seq<char>, Seq<char>>::empty(),
    {
        Headers { pairs: Vec::new() }
    }

    /// Records a header: `key` now maps to `value`, whatever it mapped to
    /// before.
    pub fn insert(&mut self, key: String, value: String)
        ensures
            final(self)@ == old(self)@.insert(key@, value@),
    {
        let ghost prev = pairs_view(self.pairs@);
        let ghost kv = (key@, value@);
        self.pairs.push((key, value));
        proof {
            assert(pairs_view(self.pairs@) =~= prev.push(kv));
            assert(pairs_view(self.pairs@).drop_last() =~= prev);
        }
    }

    /// The value recorded for `key`, if any.
    pub fn get(&self, key: &String) -> (r: Option<&String>)
        ensures
            match r {
                Some(v) => self@.contains_key(key@) && v@ == self@[key@],
                None => !self@.contains_key(key@),
            },
    {
        let ghost pv = pairs_view(self.pairs@);
        let mut i: usize = self.pairs.len();
        proof {
            assert(pv.take(i as int) =~= pv);
        }
        while i > 0
            invariant
                i <= self.pairs.len(),
                pv == pairs_view(self.pairs@),
                last_value(pv, key@) == last_value(pv.take(i as int), key@),
            decreases i,
        {
            proof {
                assert(pv.take(i as int).last() == pv[i - 1]);
                assert(pv.take(i as int).drop_last() =~= pv.take(i - 1));
            }
            let p = &self.pairs[i - 1];
            if p.0 == *key {
                proof {
                    lemma_last_occurrence_wins(pv, key@);
                }
                return Some(&p.1);
            }
            i = i - 1;
        }
        proof {
            assert(pv.take(0) =~= Seq::<(Seq<char>, Seq<char>)>::empty());
            lemma_last_occurrence_wins(pv, key@);
        }
        None
    }
}

} // verus!
