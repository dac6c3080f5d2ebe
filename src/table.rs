//! A table from text keys to values that remembers the order in which keys
//! were first inserted.
use vstd::prelude::*;

verus! {

/// The texts of a sequence of strings.
pub open spec fn string_views(s: Seq<String>) -> Seq<Seq<char>> {
    s.map_values(|x: String| x@)
}

/// Appending an element that is not there keeps a sequence free of repeats.
pub proof fn lemma_push_no_dup<A>(t: Seq<A>, y: A)
    requires
        t.no_duplicates(),
        !t.contains(y),
    ensures
        t.push(y).no_duplicates(),
{
    assert forall|i: int, j: int| 0 <= i < t.len() + 1 && 0 <= j < t.len() + 1 && i != j implies
        t.push(y)[i] != t.push(y)[j] by {
        if i == t.len() {
            assert(t[j] == t.push(y)[j]);
        } else if j == t.len() {
            assert(t[i] == t.push(y)[i]);
        }
    }
}

pub struct KeyedTable<V> {
    keys: Vec<String>,
    vals: Vec<V>,
}

impl<V> View for KeyedTable<V> {
    type V = Map<Seq<char>, V>;

    closed spec fn view(&self) -> Map<Seq<char>, V> {
        Map::new(
            |k: Seq<char>| self.key_list().contains(k),
            |k: Seq<char>| self.vals@[self.key_list().index_of(k)],
        )
    }
}

impl<V> KeyedTable<V> {
    /// The keys, in the order in which they were first inserted.
    pub closed spec fn key_list(&self) -> Seq<Seq<char>> {
        string_views(self.keys@)
    }

    pub closed spec fn wf(&self) -> bool {
        &&& self.keys@.len() == self.vals@.len()
        &&& self.key_list().no_duplicates()
    }

    proof fn lemma_at(&self, i: int)
        requires
            self.wf(),
            0 <= i < self.keys@.len(),
        ensures
            self@.contains_key(self.key_list()[i]),
            self@[self.key_list()[i]] == self.vals@[i],
    {
        let k = self.key_list()[i];
        assert(self.key_list().contains(k));
        let j = self.key_list().index_of(k);
        assert(0 <= j < self.key_list().len() && self.key_list()[j] == k);
    }

    /// The keys of the table are exactly those in `key_list`, which holds no repeats.
    pub proof fn lemma_domain(&self)
        requires
            self.wf(),
        ensures
            forall|k: Seq<char>| #[trigger] self@.contains_key(k) <==> self.key_list().contains(k),
            self@.dom().finite(),
            self.key_list().no_duplicates(),
    {
        assert(self@.dom() =~= self.key_list().to_set());
        vstd::seq_lib::seq_to_set_is_finite(self.key_list());
    }

    pub fn new() -> (r: Self)
        ensures
            r.wf(),
            r@ == Map::<Seq<char>, V>::empty(),
            r.key_list() == Seq::<Seq<char>>::empty(),
    {
        let r = KeyedTable { keys: Vec::new(), vals: Vec::new() };
        assert(r.key_list() =~= Seq::<Seq<char>>::empty());
        assert(r@ =~= Map::<Seq<char>, V>::empty());
        r
    }

    /// The position of key `k` in `key_list`, if it is there.
    pub fn find(&self, k: &String) -> (r: Option<usize>)
        requires
            self.wf(),
        ensures
            match r {
                Some(i) => i < self.key_list().len() && self.key_list()[i as int] == k@,
                None => !self@.contains_key(k@),
            },
    {
        proof {
            self.lemma_domain();
        }
        let mut i: usize = 0;
        while i < self.keys.len()
            invariant
                self.wf(),
                i <= self.keys@.len(),
                forall|j: int| 0 <= j < i ==> self.key_list()[j] != k@,
            decreases self.keys@.len() - i,
        {
            if self.keys[i] == *k {
                return Some(i);
            }
            i = i + 1;
        }
        None
    }

    /// The value under key `k`.
    pub fn get(&self, k: &String) -> (r: Option<&V>)
        requires
            self.wf(),
        ensures
            match r {
                Some(v) => self@.contains_key(k@) && *v == self@[k@],
                None => !self@.contains_key(k@),
            },
    {
        match self.find(k) {
            Some(i) => {
                proof {
                    self.lemma_at(i as int);
                }
                Some(&self.vals[i])
            },
            None => None,
        }
    }

    /// Puts `v` under key `k`; a new key goes to the end of `key_list`.
    pub fn insert(&mut self, k: String, v: V)
        requires
            old(self).wf(),
        ensures
            final(self).wf(),
            final(self)@ == old(self)@.insert(k@, v),
            final(self).key_list() == if old(self)@.contains_key(k@) {
                old(self).key_list()
            } else {
                old(self).key_list().push(k@)
            },
    {
        match self.find(&k) {
            Some(i) => {
                let mut w = v;
                self.swap_at(i, &mut w);
            },
            None => {
                let ghost prev = *self;
                proof {
                    prev.lemma_domain();
                }
                self.keys.push(k);
                self.vals.push(v);
                assert(self.key_list() =~= prev.key_list().push(k@));
                proof {
                    self.lemma_domain();
                    assert forall|q: Seq<char>| #[trigger] self@.contains_key(q) implies self@[q]
                        == prev@.insert(k@, v)[q] by {
                        let j = self.key_list().index_of(q);
                        assert(self.key_list().contains(q));
                        self.lemma_at(j);
                        if q != k@ {
                            assert(j < prev.keys@.len());
                            assert(prev.key_list()[j] == q);
                            prev.lemma_at(j);
                        }
                    }
                }
                assert forall|q: Seq<char>| self.key_list().contains(q) <==> (prev.key_list().contains(q)
                    || q == k@) by {
                    if prev.key_list().contains(q) {
                        let j = prev.key_list().index_of(q);
                        assert(self.key_list()[j] == q);
                    }
                    if q == k@ {
                        assert(self.key_list()[prev.keys@.len() as int] == q);
                    }
                }
                assert(self@ =~= prev@.insert(k@, v));
            },
        }
    }

    /// Exchanges the value at position `i` of `key_list` with `*v`.
    pub fn swap_at(&mut self, i: usize, v: &mut V)
        requires
            old(self).wf(),
            i < old(self).key_list().len(),
        ensures
            final(self).wf(),
            final(self).key_list() == old(self).key_list(),
            old(self)@.contains_key(old(self).key_list()[i as int]),
            *final(v) == old(self)@[old(self).key_list()[i as int]],
            final(self)@ == old(self)@.insert(old(self).key_list()[i as int], *old(v)),
    {
        let ghost prev = *self;
        proof {
            prev.lemma_at(i as int);
            prev.lemma_domain();
        }
        self.vals.set_and_swap(i, v);
        let ghost k = prev.key_list()[i as int];
        assert(self.key_list() =~= prev.key_list());
        proof {
            self.lemma_domain();
            assert forall|q: Seq<char>| #[trigger] self@.contains_key(q) implies self@[q]
                == prev@.insert(k, *old(v))[q] by {
                let j = self.key_list().index_of(q);
                assert(self.key_list().contains(q));
                self.lemma_at(j);
                prev.lemma_at(j);
            }
        }
        assert(self@ =~= prev@.insert(k, *old(v)));
    }

    /// Copies of the keys, in the order of `key_list`.
    pub fn keys(&self) -> (r: Vec<String>)
        ensures
            string_views(r@) == self.key_list(),
    {
        let mut r: Vec<String> = Vec::new();
        let mut i: usize = 0;
        while i < self.keys.len()
            invariant
                i <= self.keys@.len(),
                r@.len() == i,
                string_views(r@) == self.key_list().subrange(0, i as int),
            decreases self.keys@.len() - i,
        {
            let c = self.keys[i].clone();
            let ghost before = r@;
            r.push(c);
            assert(r@ == before.push(c));
            assert(string_views(r@)[i as int] == self.key_list()[i as int]);
            assert(string_views(r@) =~= self.key_list().subrange(0, i + 1));
            i = i + 1;
        }
        assert(self.key_list().subrange(0, i as int) =~= self.key_list());
        r
    }
}

} // verus!
