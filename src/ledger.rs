//! The token ledger: who owns each live token id, its metadata, and the
//! per-owner index of token ids.
use vstd::prelude::*;
use std::collections::HashMap;
use crate::metadata::{MetadataView, TokenMetadata};
use crate::table::{lemma_push_no_dup, KeyedTable};

verus! {

broadcast use vstd::std_specs::hash::group_hash_axioms;

/// `s` with every occurrence of `id` left out.
pub open spec fn without(s: Seq<u64>, id: u64) -> Seq<u64>
    decreases s.len(),
{
    if s.len() == 0 {
        s
    } else if s.last() == id {
        without(s.drop_last(), id)
    } else {
        without(s.drop_last(), id).push(s.last())
    }
}

/// `s` with `id` added at the end, unless it is already there.
pub open spec fn with_id(s: Seq<u64>, id: u64) -> Seq<u64> {
    if s.contains(id) {
        s
    } else {
        s.push(id)
    }
}

proof fn lemma_push_contains(t: Seq<u64>, y: u64, x: u64)
    ensures
        t.push(y).contains(x) <==> (t.contains(x) || x == y),
{
    if t.contains(x) {
        let k = t.index_of(x);
        assert(t.push(y)[k] == x);
    }
    if x == y {
        assert(t.push(y)[t.len() as int] == x);
    }
    if t.push(y).contains(x) && x != y {
        let k = t.push(y).index_of(x);
        assert(t[k] == x);
    }
}

pub proof fn lemma_with_id(s: Seq<u64>, id: u64, x: u64)
    ensures
        with_id(s, id).contains(x) <==> (s.contains(x) || x == id),
{
    if !s.contains(id) {
        lemma_push_contains(s, id, x);
    }
}

/// Leaving `id` out removes it and keeps every other id.
pub proof fn lemma_without(s: Seq<u64>, id: u64)
    ensures
        !without(s, id).contains(id),
        forall|x: u64| x != id ==> (without(s, id).contains(x) <==> s.contains(x)),
    decreases s.len(),
{
    if s.len() > 0 {
        let d = s.drop_last();
        let l = s.last();
        lemma_without(d, id);
        assert(s =~= d.push(l));
        let w = without(d, id);
        assert forall|x: u64| x != id implies (without(s, id).contains(x) <==> s.contains(x)) by {
            lemma_push_contains(d, l, x);
            lemma_push_contains(w, l, x);
        }
        lemma_push_contains(w, l, id);
    }
}

/// Adding an id keeps a sequence free of repeats.
pub proof fn lemma_with_id_no_dup(s: Seq<u64>, id: u64)
    requires
        s.no_duplicates(),
    ensures
        with_id(s, id).no_duplicates(),
{
    if !s.contains(id) {
        lemma_push_no_dup(s, id);
    }
}

/// Leaving an id out keeps a sequence free of repeats.
pub proof fn lemma_without_no_dup(s: Seq<u64>, id: u64)
    requires
        s.no_duplicates(),
    ensures
        without(s, id).no_duplicates(),
    decreases s.len(),
{
    if s.len() > 0 {
        let d = s.drop_last();
        let l = s.last();
        assert(d.no_duplicates()) by {
            assert forall|i: int, j: int| 0 <= i < d.len() && 0 <= j < d.len() && i != j implies
                d[i] != d[j] by {
                assert(d[i] == s[i] && d[j] == s[j]);
            }
        }
        lemma_without_no_dup(d, id);
        if l != id {
            lemma_without(d, id);
            if d.contains(l) {
                let k = d.index_of(l);
                assert(s[k] == l && s[s.len() - 1] == l);
            }
            lemma_push_no_dup(without(d, id), l);
        }
    }
}

pub struct Ledger {
    owner_by_id: HashMap<u64, String>,
    metadata_by_id: HashMap<u64, TokenMetadata>,
    tokens_per_owner: KeyedTable<Vec<u64>>,
}

impl Ledger {
    pub closed spec fn wf(&self) -> bool {
        &&& self.tokens_per_owner.wf()
        &&& forall|a: Seq<char>| (#[trigger] self.index(a)).no_duplicates()
    }

    /// No owner's index holds an id twice.
    pub proof fn lemma_index_distinct(&self, a: Seq<char>)
        requires
            self.wf(),
        ensures
            self.index(a).no_duplicates(),
    {
    }

    /// The owner of token `id`, if it is live.
    pub closed spec fn owner(&self, id: u64) -> Option<Seq<char>> {
        if self.owner_by_id@.contains_key(id) {
            Some(self.owner_by_id@[id]@)
        } else {
            None
        }
    }

    /// The metadata of token `id`, if it has any.
    pub closed spec fn meta(&self, id: u64) -> Option<MetadataView> {
        if self.metadata_by_id@.contains_key(id) {
            Some(self.metadata_by_id@[id]@)
        } else {
            None
        }
    }

    /// The token ids indexed under `account`, in the order they were added.
    pub closed spec fn index(&self, account: Seq<char>) -> Seq<u64> {
        if self.tokens_per_owner@.contains_key(account) {
            self.tokens_per_owner@[account]@
        } else {
            Seq::empty()
        }
    }

    pub fn new() -> (r: Self)
        ensures
            r.wf(),
            forall|id: u64| r.owner(id) is None,
            forall|id: u64| r.meta(id) is None,
            forall|a: Seq<char>| r.index(a) == Seq::<u64>::empty(),
    {
        Ledger {
            owner_by_id: HashMap::new(),
            metadata_by_id: HashMap::new(),
            tokens_per_owner: KeyedTable::new(),
        }
    }

    pub fn insert_owner(&mut self, id: u64, account: String)
        requires
            old(self).wf(),
        ensures
            final(self).wf(),
            forall|i: u64| final(self).owner(i) == if i == id { Some(account@) } else { old(self).owner(i) },
            forall|i: u64| final(self).meta(i) == old(self).meta(i),
            forall|a: Seq<char>| final(self).index(a) == old(self).index(a),
    {
        self.owner_by_id.insert(id, account);
        assert forall|a: Seq<char>| (#[trigger] self.index(a)).no_duplicates() by {
            assert(self.index(a) == old(self).index(a));
        }
    }

    pub fn remove_owner(&mut self, id: u64)
        requires
            old(self).wf(),
        ensures
            final(self).wf(),
            forall|i: u64| final(self).owner(i) == if i == id { None } else { old(self).owner(i) },
            forall|i: u64| final(self).meta(i) == old(self).meta(i),
            forall|a: Seq<char>| final(self).index(a) == old(self).index(a),
    {
        self.owner_by_id.remove(&id);
        assert forall|a: Seq<char>| (#[trigger] self.index(a)).no_duplicates() by {
            assert(self.index(a) == old(self).index(a));
        }
    }

    pub fn lookup_owner(&self, id: u64) -> (r: Option<String>)
        ensures
            match r {
                Some(a) => self.owner(id) == Some(a@),
                None => self.owner(id) is None,
            },
    {
        match self.owner_by_id.get(&id) {
            Some(a) => Some(a.clone()),
            None => None,
        }
    }

    pub fn insert_metadata(&mut self, id: u64, m: TokenMetadata)
        requires
            old(self).wf(),
        ensures
            final(self).wf(),
            forall|i: u64| final(self).meta(i) == if i == id { Some(m@) } else { old(self).meta(i) },
            forall|i: u64| final(self).owner(i) == old(self).owner(i),
            forall|a: Seq<char>| final(self).index(a) == old(self).index(a),
    {
        self.metadata_by_id.insert(id, m);
        assert forall|a: Seq<char>| (#[trigger] self.index(a)).no_duplicates() by {
            assert(self.index(a) == old(self).index(a));
        }
    }

    pub fn remove_metadata(&mut self, id: u64)
        requires
            old(self).wf(),
        ensures
            final(self).wf(),
            forall|i: u64| final(self).meta(i) == if i == id { None } else { old(self).meta(i) },
            forall|i: u64| final(self).owner(i) == old(self).owner(i),
            forall|a: Seq<char>| final(self).index(a) == old(self).index(a),
    {
        self.metadata_by_id.remove(&id);
        assert forall|a: Seq<char>| (#[trigger] self.index(a)).no_duplicates() by {
            assert(self.index(a) == old(self).index(a));
        }
    }

    pub fn lookup_metadata(&self, id: u64) -> (r: Option<TokenMetadata>)
        ensures
            match r {
                Some(m) => self.meta(id) == Some(m@),
                None => self.meta(id) is None,
            },
    {
        match self.metadata_by_id.get(&id) {
            Some(m) => Some(m.duplicate()),
            None => None,
        }
    }

    /// Adds `id` to the index of `account`, unless it is already there.
    pub fn add_to_owner_index(&mut self, account: String, id: u64)
        requires
            old(self).wf(),
        ensures
            final(self).wf(),
            forall|a: Seq<char>| final(self).index(a) == if a == account@ {
                with_id(old(self).index(account@), id)
            } else {
                old(self).index(a)
            },
            forall|i: u64| final(self).owner(i) == old(self).owner(i),
            forall|i: u64| final(self).meta(i) == old(self).meta(i),
    {
        let mut ids: Vec<u64> = Vec::new();
        match self.tokens_per_owner.find(&account) {
            Some(i) => {
                self.tokens_per_owner.swap_at(i, &mut ids);
            },
            None => {},
        }
        assert(ids@ == old(self).index(account@));
        let mut present = false;
        let mut j: usize = 0;
        while j < ids.len()
            invariant
                j <= ids@.len(),
                present == exists|k: int| 0 <= k < j && ids@[k] == id,
            decreases ids@.len() - j,
        {
            if ids[j] == id {
                present = true;
            }
            assert(present == exists|k: int| 0 <= k < j + 1 && ids@[k] == id) by {
                if exists|k: int| 0 <= k < j + 1 && ids@[k] == id {
                    let k = choose|k: int| 0 <= k < j + 1 && ids@[k] == id;
                    if k < j {
                        assert(0 <= k < j && ids@[k] == id);
                    }
                }
            }
            j = j + 1;
        }
        if !present {
            ids.push(id);
        } else {
            assert(ids@.contains(id));
        }
        proof {
            lemma_with_id_no_dup(old(self).index(account@), id);
        }
        self.tokens_per_owner.insert(account, ids);
        assert forall|a: Seq<char>| (#[trigger] self.index(a)).no_duplicates() by {
            if a != account@ {
                assert(self.index(a) == old(self).index(a));
            }
        }
    }

    /// Takes `id` out of the index of `account`.
    pub fn remove_from_owner_index(&mut self, account: &String, id: u64)
        requires
            old(self).wf(),
        ensures
            final(self).wf(),
            forall|a: Seq<char>| final(self).index(a) == if a == account@ {
                without(old(self).index(account@), id)
            } else {
                old(self).index(a)
            },
            forall|i: u64| final(self).owner(i) == old(self).owner(i),
            forall|i: u64| final(self).meta(i) == old(self).meta(i),
    {
        match self.tokens_per_owner.find(account) {
            Some(i) => {
                let mut ids: Vec<u64> = Vec::new();
                self.tokens_per_owner.swap_at(i, &mut ids);
                let mut kept: Vec<u64> = Vec::new();
                let mut j: usize = 0;
                while j < ids.len()
                    invariant
                        j <= ids@.len(),
                        kept@ == without(ids@.subrange(0, j as int), id),
                    decreases ids@.len() - j,
                {
                    assert(ids@.subrange(0, j + 1).drop_last() =~= ids@.subrange(0, j as int));
                    if ids[j] != id {
                        kept.push(ids[j]);
                    }
                    j = j + 1;
                }
                assert(ids@.subrange(0, j as int) =~= ids@);
                proof {
                    lemma_without_no_dup(old(self).index(account@), id);
                }
                self.tokens_per_owner.swap_at(i, &mut kept);
                assert forall|a: Seq<char>| (#[trigger] self.index(a)).no_duplicates() by {
                    if a != account@ {
                        assert(self.index(a) == old(self).index(a));
                    }
                }
            },
            None => {
                assert(without(Seq::<u64>::empty(), id) == Seq::<u64>::empty());
            },
        }
    }

    /// The token ids indexed under `account`.
    pub fn list_owner_index(&self, account: &String) -> (r: Vec<u64>)
        requires
            self.wf(),
        ensures
            r@ == self.index(account@),
    {
        match self.tokens_per_owner.get(account) {
            Some(ids) => {
                let c = ids.clone();
                assert(c@ =~= ids@);
                c
            },
            None => Vec::new(),
        }
    }
}

} // verus!
