//! A small association list from string keys to values, with a `Map` view.
//! It backs the injected control-plane snapshot.

use vstd::prelude::*;

verus! {

/// Key/value pairs with unique keys, read through a `Map` over the deep
/// views of the values.
pub struct AList<V> {
    entries: Vec<(String, V)>,
}

impl<V: DeepView> AList<V> {
    /// Each key occurs at most once.
    pub closed spec fn wf(&self) -> bool {
        forall|i: int, j: int|
            0 <= i < j < self.entries@.len() ==> #[trigger] self.entries@[i].0@ != #[trigger] self.entries@[j].0@
    }

    /// The mathematical map this list holds.
    pub closed spec fn map(&self) -> Map<Seq<char>, V::V> {
        Map::new(
            |k: Seq<char>|
                exists|i: int|
                    0 <= i < self.entries@.len() && #[trigger] self.entries@[i].0@ == k,
            |k: Seq<char>|
                {
                    let i = choose|i: int|
                        0 <= i < self.entries@.len() && #[trigger] self.entries@[i].0@ == k;
                    self.entries@[i].1.deep_view()
                },
        )
    }

    /// An empty list.
    pub fn new() -> (r: AList<V>)
        ensures
            r.wf(),
            r.map() == Map::<Seq<char>, V::V>::empty(),
    {
        let r = AList { entries: Vec::new() };
        proof {
            assert(r.map() =~= Map::<Seq<char>, V::V>::empty());
        }
        r
    }

    proof fn lemma_entry_at(&self, i: int)
        requires
            self.wf(),
            0 <= i < self.entries@.len(),
        ensures
            self.map().contains_key(self.entries@[i].0@),
            self.map()[self.entries@[i].0@] == self.entries@[i].1.deep_view(),
    {
        let k = self.entries@[i].0@;
        let j = choose|j: int| 0 <= j < self.entries@.len() && #[trigger] self.entries@[j].0@ == k;
        assert(j == i);
    }

    /// The value stored under `k`, when there is one.
    pub fn get(&self, k: &String) -> (r: Option<&V>)
        requires
            self.wf(),
        ensures
            match r {
                Some(v) => self.map().contains_key(k@) && v.deep_view() == self.map()[k@],
                None => !self.map().contains_key(k@),
            },
    {
        let mut i: usize = 0;
        while i < self.entries.len()
            invariant
                self.wf(),
                i <= self.entries@.len(),
                forall|j: int| 0 <= j < i ==> #[trigger] self.entries@[j].0@ != k@,
            decreases self.entries@.len() - i,
        {
            if self.entries[i].0 == *k {
                proof {
                    self.lemma_entry_at(i as int);
                }
                return Some(&self.entries[i].1);
            }
            i = i + 1;
        }
        None
    }

    /// Stores `v` under `k`, replacing what was there.
    pub fn set(&mut self, k: &String, v: V)
        requires
            old(self).wf(),
        ensures
            final(self).wf(),
            final(self).map() == old(self).map().insert(k@, v.deep_view()),
    {
        let ghost old_self = *old(self);
        let ghost vv = v.deep_view();
        let mut i: usize = 0;
        let mut found: Option<usize> = None;
        while i < self.entries.len()
            invariant
                *self == old_self,
                i <= self.entries@.len(),
                match found {
                    Some(fi) => fi < i && self.entries@[fi as int].0@ == k@,
                    None => forall|j: int| 0 <= j < i ==> #[trigger] self.entries@[j].0@ != k@,
                },
            decreases self.entries@.len() - i,
        {
            if found.is_none() && self.entries[i].0 == *k {
                found = Some(i);
            }
            i = i + 1;
        }
        match found {
            Some(fi) => {
                self.entries.remove(fi);
                self.entries.insert(fi, (k.clone(), v));
                proof {
                    self.lemma_update_view(old_self, fi as int, k@, vv);
                }
            },
            None => {
                self.entries.push((k.clone(), v));
                proof {
                    self.lemma_push_view(old_self, k@, vv);
                }
            },
        }
    }

    proof fn lemma_update_view(&self, old_self: AList<V>, fi: int, k: Seq<char>, vv: V::V)
        requires
            old_self.wf(),
            0 <= fi < old_self.entries@.len(),
            old_self.entries@[fi].0@ == k,
            self.entries@.len() == old_self.entries@.len(),
            self.entries@[fi].0@ == k,
            self.entries@[fi].1.deep_view() == vv,
            forall|j: int|
                0 <= j < self.entries@.len() && j != fi ==> self.entries@[j]
                    == old_self.entries@[j],
        ensures
            self.wf(),
            self.map() == old_self.map().insert(k, vv),
    {
        assert forall|i: int, j: int|
            0 <= i < j < self.entries@.len() implies #[trigger] self.entries@[i].0@
            != #[trigger] self.entries@[j].0@ by {
            assert(self.entries@[i].0@ == old_self.entries@[i].0@);
            assert(self.entries@[j].0@ == old_self.entries@[j].0@);
        }
        let m1 = self.map();
        let m2 = old_self.map().insert(k, vv);
        assert forall|q: Seq<char>| m1.contains_key(q) implies m2.contains_key(q) by {
            let i = choose|i: int|
                0 <= i < self.entries@.len() && #[trigger] self.entries@[i].0@ == q;
            if i != fi {
                old_self.lemma_entry_at(i);
            }
        }
        assert forall|q: Seq<char>| m2.contains_key(q) implies m1.contains_key(q) by {
            if q == k {
                assert(self.entries@[fi].0@ == q);
            } else {
                let i = choose|i: int|
                    0 <= i < old_self.entries@.len() && #[trigger] old_self.entries@[i].0@ == q;
                assert(self.entries@[i].0@ == q);
            }
        }
        assert forall|q: Seq<char>| m1.contains_key(q) implies m1[q] == m2[q] by {
            let i = choose|i: int|
                0 <= i < self.entries@.len() && #[trigger] self.entries@[i].0@ == q;
            self.lemma_entry_at(i);
            if q == k {
                assert(i == fi);
            } else {
                assert(i != fi);
                old_self.lemma_entry_at(i);
            }
        }
        assert(m1 =~= m2);
    }

    proof fn lemma_push_view(&self, old_self: AList<V>, k: Seq<char>, vv: V::V)
        requires
            old_self.wf(),
            !old_self.map().contains_key(k),
            self.entries@.len() == old_self.entries@.len() + 1,
            self.entries@[self.entries@.len() - 1].0@ == k,
            self.entries@[self.entries@.len() - 1].1.deep_view() == vv,
            forall|j: int|
                0 <= j < old_self.entries@.len() ==> self.entries@[j] == old_self.entries@[j],
        ensures
            self.wf(),
            self.map() == old_self.map().insert(k, vv),
    {
        let n = old_self.entries@.len() as int;
        assert forall|i: int, j: int|
            0 <= i < j < self.entries@.len() implies #[trigger] self.entries@[i].0@
            != #[trigger] self.entries@[j].0@ by {
            if j < n {
            } else {
                if self.entries@[i].0@ == k {
                    old_self.lemma_entry_at(i);
                }
            }
        }
        let m1 = self.map();
        let m2 = old_self.map().insert(k, vv);
        assert forall|q: Seq<char>| m1.contains_key(q) implies m2.contains_key(q) by {
            let i = choose|i: int|
                0 <= i < self.entries@.len() && #[trigger] self.entries@[i].0@ == q;
            if i < n {
                old_self.lemma_entry_at(i);
            }
        }
        assert forall|q: Seq<char>| m2.contains_key(q) implies m1.contains_key(q) by {
            if q == k {
                assert(self.entries@[n].0@ == q);
            } else {
                let i = choose|i: int|
                    0 <= i < old_self.entries@.len() && #[trigger] old_self.entries@[i].0@ == q;
                assert(self.entries@[i].0@ == q);
            }
        }
        assert forall|q: Seq<char>| m1.contains_key(q) implies m1[q] == m2[q] by {
            let i = choose|i: int|
                0 <= i < self.entries@.len() && #[trigger] self.entries@[i].0@ == q;
            self.lemma_entry_at(i);
            if q == k {
                assert(i == n);
            } else {
                assert(i < n);
                old_self.lemma_entry_at(i);
            }
        }
        assert(m1 =~= m2);
    }
}

} // verus!
