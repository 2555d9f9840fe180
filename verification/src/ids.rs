//! A set of directory or note identifiers.
use vstd::prelude::*;

verus! {

/// The identifiers held by the first `n` strings of `s`.
pub open spec fn prefix_ids(s: Seq<String>, n: int) -> Set<Seq<char>> {
    Set::new(|x: Seq<char>| exists|k: int| 0 <= k < n && #[trigger] s[k]@ == x)
}

pub proof fn lemma_prefix_ids_step(s: Seq<String>, n: int)
    requires
        0 <= n < s.len(),
    ensures
        prefix_ids(s, n + 1) == prefix_ids(s, n).insert(s[n]@),
{
    assert forall|x: Seq<char>| #[trigger] prefix_ids(s, n + 1).contains(x) == prefix_ids(s, n).insert(s[n]@).contains(x) by {
        if prefix_ids(s, n + 1).contains(x) {
            let k = choose|k: int| 0 <= k < n + 1 && #[trigger] s[k]@ == x;
            if k < n {
                assert(prefix_ids(s, n).contains(x));
            }
        }
        if prefix_ids(s, n).contains(x) {
            let k = choose|k: int| 0 <= k < n && #[trigger] s[k]@ == x;
            assert(s[k]@ == x);
        }
        if x == s[n]@ {
            assert(s[n]@ == x);
        }
    }
    assert(prefix_ids(s, n + 1) =~= prefix_ids(s, n).insert(s[n]@));
}

pub proof fn lemma_prefix_ids_push(s: Seq<String>, v: String)
    ensures
        prefix_ids(s.push(v), s.len() + 1 as int) == prefix_ids(s, s.len() as int).insert(v@),
{
    lemma_prefix_ids_step(s.push(v), s.len() as int);
    assert forall|x: Seq<char>| #[trigger] prefix_ids(s.push(v), s.len() as int).contains(x) == prefix_ids(s, s.len() as int).contains(x) by {
        if prefix_ids(s.push(v), s.len() as int).contains(x) {
            let k = choose|k: int| 0 <= k < s.len() && #[trigger] s.push(v)[k]@ == x;
            assert(s[k]@ == x);
        }
        if prefix_ids(s, s.len() as int).contains(x) {
            let k = choose|k: int| 0 <= k < s.len() && #[trigger] s[k]@ == x;
            assert(s.push(v)[k]@ == x);
        }
    }
    assert(prefix_ids(s.push(v), s.len() as int) =~= prefix_ids(s, s.len() as int));
}

/// A finite set of identifiers, kept in insertion order.
#[derive(Debug)]
pub struct IdSet {
    ids: Vec<String>,
}

impl View for IdSet {
    type V = Set<Seq<char>>;

    closed spec fn view(&self) -> Set<Seq<char>> {
        prefix_ids(self.ids@, self.ids@.len() as int)
    }
}

impl IdSet {
    /// The empty set.
    pub fn new() -> (s: IdSet)
        ensures
            s@ == Set::<Seq<char>>::empty(),
    {
        let s = IdSet { ids: Vec::new() };
        assert(s@ =~= Set::<Seq<char>>::empty());
        s
    }

    /// Whether `id` is in the set.
    pub fn contains(&self, id: &String) -> (r: bool)
        ensures
            r == self@.contains(id@),
    {
        let n = self.ids.len();
        for i in 0..n
            invariant
                n == self.ids@.len(),
                forall|j: int| 0 <= j < i ==> #[trigger] self.ids@[j]@ != id@,
        {
            if self.ids[i].eq(id) {
                assert(self.ids@[i as int]@ == id@);
                return true;
            }
        }
        false
    }

    /// Adds `id`; the result says whether it was not there before.
    pub fn insert(&mut self, id: String) -> (added: bool)
        ensures
            final(self)@ == old(self)@.insert(id@),
            added == !old(self)@.contains(id@),
    {
        if self.contains(&id) {
            assert(self@ =~= old(self)@.insert(id@));
            false
        } else {
            proof {
                lemma_prefix_ids_push(self.ids@, id);
            }
            self.ids.push(id);
            true
        }
    }

    /// Removes `id`; the result says whether it was there.
    pub fn remove(&mut self, id: &String) -> (removed: bool)
        ensures
            final(self)@ == old(self)@.remove(id@),
            removed == old(self)@.contains(id@),
    {
        let was = self.contains(id);
        let mut kept: Vec<String> = Vec::new();
        let n = self.ids.len();
        for i in 0..n
            invariant
                n == self.ids@.len(),
                prefix_ids(kept@, kept@.len() as int) == prefix_ids(self.ids@, i as int).remove(id@),
        {
            proof {
                lemma_prefix_ids_step(self.ids@, i as int);
            }
            if !self.ids[i].eq(id) {
                proof {
                    lemma_prefix_ids_push(kept@, self.ids@[i as int]);
                }
                kept.push(self.ids[i].clone());
                assert(prefix_ids(kept@, kept@.len() as int) =~= prefix_ids(self.ids@, i + 1).remove(id@));
            } else {
                assert(prefix_ids(kept@, kept@.len() as int) =~= prefix_ids(self.ids@, i + 1).remove(id@));
            }
        }
        self.ids = kept;
        was
    }
}

} // verus!
