//! The cache held in memory: named lists of short strings. What it holds is
//! a hint and never decides what the durable state becomes.

use vstd::prelude::*;

verus! {

/// The cache in memory. Each change is written behind the earlier ones, and
/// of two lists under one key the later one counts.
pub struct Cache {
    log: Vec<(String, Vec<String>)>,
}

/// The list that the later of the records under `key` holds; the empty list
/// where there is none.
pub open spec fn latest(log: Seq<(Seq<char>, Seq<Seq<char>>)>, key: Seq<char>) -> Seq<Seq<char>>
    decreases log.len(),
{
    if log.len() == 0 {
        Seq::empty()
    } else if log.last().0 == key {
        log.last().1
    } else {
        latest(log.drop_last(), key)
    }
}

impl Cache {
    /// The records of the cache as plain values.
    pub closed spec fn records(&self) -> Seq<(Seq<char>, Seq<Seq<char>>)> {
        Seq::new(self.log@.len(), |i: int| (self.log@[i].0@, self.log@[i].1.deep_view()))
    }

    /// The list under `key`; the empty list where the cache holds none.
    pub open spec fn list(&self, key: Seq<char>) -> Seq<Seq<char>> {
        latest(self.records(), key)
    }

    /// A cache that holds nothing.
    pub fn new() -> (r: Cache)
        ensures
            forall|key: Seq<char>| #[trigger] r.list(key) == Seq::<Seq<char>>::empty(),
    {
        let r = Cache { log: Vec::new() };
        assert(r.records() =~= Seq::empty());
        r
    }

    /// The whole list under `key`.
    pub fn read(&self, key: &String) -> (r: Vec<String>)
        ensures
            r.deep_view() == self.list(key@),
    {
        let mut i: usize = self.log.len();
        assert(self.records().subrange(0, i as int) =~= self.records());
        while i > 0
            invariant
                i <= self.log.len(),
                latest(self.records(), key@) == latest(self.records().subrange(0, i as int), key@),
            decreases i,
        {
            proof {
                let front = self.records().subrange(0, i as int);
                assert(front.drop_last() =~= self.records().subrange(0, i - 1));
                assert(front.last() == self.records()[i - 1]);
            }
            i -= 1;
            if self.log[i].0 == *key {
                let found = &self.log[i].1;
                let mut out: Vec<String> = Vec::new();
                let mut j: usize = 0;
                while j < found.len()
                    invariant
                        j <= found.len(),
                        out@.len() == j,
                        forall|k: int| 0 <= k < j ==> (#[trigger] out@[k])@ == found@[k]@,
                    decreases found.len() - j,
                {
                    out.push(found[j].clone());
                    j += 1;
                }
                assert(out.deep_view() =~= found.deep_view());
                return out;
            }
        }
        let out: Vec<String> = Vec::new();
        assert(self.records().subrange(0, 0) =~= Seq::empty());
        assert(out.deep_view() =~= Seq::<Seq<char>>::empty());
        out
    }

    /// Appends `values` to the list under `key`. No other list changes.
    pub fn append(&mut self, key: String, values: Vec<String>)
        ensures
            final(self).list(key@) == old(self).list(key@) + values.deep_view(),
            forall|other: Seq<char>|
                other != key@ ==> #[trigger] final(self).list(other) == old(self).list(other),
    {
        let mut list = self.read(&key);
        let ghost before = list.deep_view();
        let mut values = values;
        let ghost added = values.deep_view();
        list.append(&mut values);
        assert(list.deep_view() =~= before + added);
        let ghost key_text = key@;
        let ghost list_text = list.deep_view();
        self.log.push((key, list));
        proof {
            assert(self.records().drop_last() =~= old(self).records());
            assert(self.records().last() == (key_text, list_text));
        }
    }

    /// Deletes the list under `key`. No other list changes.
    pub fn delete(&mut self, key: String)
        ensures
            final(self).list(key@) == Seq::<Seq<char>>::empty(),
            forall|other: Seq<char>|
                other != key@ ==> #[trigger] final(self).list(other) == old(self).list(other),
    {
        let ghost key_text = key@;
        let list: Vec<String> = Vec::new();
        assert(list.deep_view() =~= Seq::<Seq<char>>::empty());
        self.log.push((key, list));
        proof {
            assert(self.records().drop_last() =~= old(self).records());
            assert(self.records().last() == (key_text, Seq::<Seq<char>>::empty()));
        }
    }
}

} // verus!
