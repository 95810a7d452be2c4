//! A table of values by two texts.

use crate::text;
use vstd::prelude::*;

verus! {

/// A table of values by two texts; no pair of texts occurs twice.
#[derive(Debug)]
pub struct Shelf<V> {
    entries: Vec<(String, String, V)>,
}

/// The pair of texts that an entry stands under.
pub open spec fn slot_of<V>(e: (String, String, V)) -> (Seq<char>, Seq<char>) {
    (e.0@, e.1@)
}

/// Whether an entry stands under a pair of texts.
spec fn occupied<V>(entries: Seq<(String, String, V)>, k: (Seq<char>, Seq<char>)) -> bool {
    exists|i: int| 0 <= i < entries.len() && slot_of(#[trigger] entries[i]) == k
}

/// Where an entry stands under a pair of texts.
spec fn place<V>(entries: Seq<(String, String, V)>, k: (Seq<char>, Seq<char>)) -> int {
    choose|i: int| 0 <= i < entries.len() && slot_of(#[trigger] entries[i]) == k
}

/// No pair of texts occurs twice.
spec fn distinct<V>(entries: Seq<(String, String, V)>) -> bool {
    forall|i: int, j: int|
        0 <= i < j < entries.len() ==> slot_of(#[trigger] entries[i]) != slot_of(
            #[trigger] entries[j],
        )
}

impl<V: View> Shelf<V> {
    /// Whether the shelf is in order.
    pub closed spec fn inv(&self) -> bool {
        distinct(self.entries@)
    }

    /// The values on the shelf.
    pub closed spec fn map(&self) -> Map<(Seq<char>, Seq<char>), V::V> {
        Map::new(
            |k: (Seq<char>, Seq<char>)| occupied(self.entries@, k),
            |k: (Seq<char>, Seq<char>)| self.entries@[place(self.entries@, k)].2@,
        )
    }

    /// An empty shelf.
    pub fn new() -> (r: Shelf<V>)
        ensures
            r.inv(),
            r.map() == Map::<(Seq<char>, Seq<char>), V::V>::empty(),
    {
        let r: Shelf<V> = Shelf { entries: Vec::new() };
        assert(r.map() =~= Map::<(Seq<char>, Seq<char>), V::V>::empty());
        r
    }

    proof fn lemma_at(&self, i: int)
        requires
            self.inv(),
            0 <= i < self.entries@.len(),
        ensures
            self.map().dom().contains(slot_of(self.entries@[i])),
            self.map()[slot_of(self.entries@[i])] == self.entries@[i].2@,
    {
        let k = slot_of(self.entries@[i]);
        assert(occupied(self.entries@, k));
        let p = place(self.entries@, k);
        assert(slot_of(self.entries@[p]) == k);
        if p < i {
            assert(slot_of(self.entries@[p]) != slot_of(self.entries@[i]));
        }
        if i < p {
            assert(slot_of(self.entries@[i]) != slot_of(self.entries@[p]));
        }
    }

    fn locate(&self, a: &str, b: &str) -> (r: Option<usize>)
        requires
            self.inv(),
        ensures
            r matches Some(i) ==> i < self.entries@.len() && slot_of(self.entries@[i as int]) == (
                a@,
                b@,
            ),
            r is None ==> forall|i: int|
                0 <= i < self.entries@.len() ==> slot_of(#[trigger] self.entries@[i]) != (a@, b@),
            r is Some == self.map().dom().contains((a@, b@)),
    {
        let mut i: usize = 0;
        while i < self.entries.len()
            invariant
                i <= self.entries@.len(),
                self.inv(),
                forall|j: int|
                    0 <= j < i ==> slot_of(#[trigger] self.entries@[j]) != (a@, b@),
            decreases self.entries@.len() - i,
        {
            if text::same(self.entries[i].0.as_str(), a) && text::same(
                self.entries[i].1.as_str(),
                b,
            ) {
                proof {
                    self.lemma_at(i as int);
                }
                return Some(i);
            }
            i = i + 1;
        }
        None
    }

    /// The value under two texts.
    pub fn get(&self, a: &str, b: &str) -> (r: Option<&V>)
        requires
            self.inv(),
        ensures
            r is Some == self.map().dom().contains((a@, b@)),
            r matches Some(v) ==> v@ == self.map()[(a@, b@)],
    {
        match self.locate(a, b) {
            Some(i) => {
                proof {
                    self.lemma_at(i as int);
                }
                Some(&self.entries[i].2)
            },
            None => None,
        }
    }

    /// Puts a value under two texts.
    pub fn insert(&mut self, a: &str, b: &str, v: V)
        requires
            old(self).inv(),
        ensures
            final(self).inv(),
            final(self).map() == old(self).map().insert((a@, b@), v@),
    {
        let ghost before = *self;
        let ghost k = (a@, b@);
        let ghost vv = v@;
        let entry = (a.to_string(), b.to_string(), v);
        match self.locate(a, b) {
            Some(i) => {
                self.entries.set(i, entry);
                proof {
                    assert forall|x: int, y: int| 0 <= x < y < self.entries@.len() implies slot_of(
                        #[trigger] self.entries@[x],
                    ) != slot_of(#[trigger] self.entries@[y]) by {
                        assert(slot_of(before.entries@[x]) != slot_of(before.entries@[y]));
                    }
                    self.lemma_same_but(&before, k, i as int);
                }
            },
            None => {
                self.entries.push(entry);
                proof {
                    assert forall|x: int, y: int| 0 <= x < y < self.entries@.len() implies slot_of(
                        #[trigger] self.entries@[x],
                    ) != slot_of(#[trigger] self.entries@[y]) by {
                        if y == before.entries@.len() {
                            assert(slot_of(before.entries@[x]) != k);
                        } else {
                            assert(slot_of(before.entries@[x]) != slot_of(before.entries@[y]));
                        }
                    }
                    self.lemma_same_but(&before, k, before.entries@.len() as int);
                }
            },
        }
    }

    proof fn lemma_same_but(&self, before: &Shelf<V>, k: (Seq<char>, Seq<char>), i: int)
        requires
            self.inv(),
            before.inv(),
            0 <= i < self.entries@.len(),
            slot_of(self.entries@[i]) == k,
            forall|j: int|
                0 <= j < self.entries@.len() && j != i ==> j < before.entries@.len()
                    && #[trigger] self.entries@[j] == before.entries@[j],
            forall|j: int|
                0 <= j < before.entries@.len() && j != i ==> j < self.entries@.len()
                    && #[trigger] before.entries@[j] == self.entries@[j],
            i < before.entries@.len() ==> slot_of(before.entries@[i]) == k,
        ensures
            self.map() == before.map().insert(k, self.entries@[i].2@),
    {
        let a = self.map();
        let b = before.map().insert(k, self.entries@[i].2@);
        self.lemma_at(i);
        assert forall|q: (Seq<char>, Seq<char>)| a.dom().contains(q) == #[trigger] b.dom().contains(q) by {
            if q != k {
                if occupied(self.entries@, q) {
                    let p = place(self.entries@, q);
                    assert(slot_of(before.entries@[p]) == q);
                }
                if occupied(before.entries@, q) {
                    let p = place(before.entries@, q);
                    assert(slot_of(self.entries@[p]) == q);
                }
            }
        }
        assert forall|q: (Seq<char>, Seq<char>)| a.dom().contains(q) implies #[trigger] a[q] == b[q] by {
            if q != k {
                let p = place(self.entries@, q);
                assert(slot_of(self.entries@[p]) == q);
                assert(self.entries@[p] == before.entries@[p]);
                before.lemma_at(p);
                self.lemma_at(p);
            }
        }
        assert(a =~= b);
    }

    /// Takes away what stands under two texts.
    pub fn remove(&mut self, a: &str, b: &str) -> (gone: Option<V>)
        requires
            old(self).inv(),
        ensures
            final(self).inv(),
            final(self).map() == old(self).map().remove((a@, b@)),
            gone is Some == old(self).map().dom().contains((a@, b@)),
            gone matches Some(v) ==> v@ == old(self).map()[(a@, b@)],
    {
        let ghost before = *self;
        let ghost k = (a@, b@);
        match self.locate(a, b) {
            Some(i) => {
                let (_, _, gone) = self.entries.remove(i);
                proof {
                    before.lemma_at(i as int);
                    let x = self.entries@;
                    let y = before.entries@;
                    assert(forall|j: int| 0 <= j < i ==> #[trigger] x[j] == y[j]);
                    assert(forall|j: int| i <= j < x.len() ==> #[trigger] x[j] == y[j + 1]);
                    assert forall|p: int, q: int| 0 <= p < q < x.len() implies slot_of(
                        #[trigger] x[p],
                    ) != slot_of(#[trigger] x[q]) by {
                        let pp = if p < i {
                            p
                        } else {
                            p + 1
                        };
                        let qq = if q < i {
                            q
                        } else {
                            q + 1
                        };
                        assert(slot_of(y[pp]) != slot_of(y[qq]));
                    }
                    let m = self.map();
                    let n = before.map().remove(k);
                    assert forall|q: (Seq<char>, Seq<char>)| m.dom().contains(q) == #[trigger] n.dom().contains(q) by {
                        if occupied(x, q) {
                            let p = place(x, q);
                            let pp = if p < i {
                                p
                            } else {
                                p + 1
                            };
                            assert(slot_of(y[pp]) == q);
                            assert(occupied(y, q));
                            if pp < i {
                                assert(slot_of(y[pp]) != slot_of(y[i as int]));
                            } else {
                                assert(slot_of(y[i as int]) != slot_of(y[pp]));
                            }
                        }
                        if q != k && occupied(y, q) {
                            let p = place(y, q);
                            assert(slot_of(y[p]) == q);
                            assert(p != i);
                            if p < i {
                                assert(slot_of(x[p]) == q);
                            } else {
                                assert(slot_of(x[p - 1]) == q);
                            }
                        }
                    }
                    assert forall|q: (Seq<char>, Seq<char>)| m.dom().contains(q) implies #[trigger] m[q] == n[q] by {
                        let p = place(x, q);
                        assert(slot_of(x[p]) == q);
                        let pp = if p < i {
                            p
                        } else {
                            p + 1
                        };
                        before.lemma_at(pp);
                        self.lemma_at(p);
                        assert(n.dom().contains(q));
                    }
                    assert(m =~= n);
                }
                Some(gone)
            },
            None => {
                assert(self.map() =~= before.map().remove(k));
                None
            },
        }
    }
}

}
