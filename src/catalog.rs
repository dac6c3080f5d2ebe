//! The owner-curated catalog of metadata templates, keyed by type label.
use vstd::prelude::*;
use crate::metadata::{MetadataView, TokenMetadata};
use crate::table::{lemma_push_no_dup, KeyedTable};

verus! {

/// The values of a sequence of metadata records.
pub open spec fn metadata_views(s: Seq<TokenMetadata>) -> Seq<MetadataView> {
    s.map_values(|m: TokenMetadata| m@)
}

/// A type's templates after adding `m`: a template already present is not added again.
pub open spec fn with_template(s: Seq<MetadataView>, m: MetadataView) -> Seq<MetadataView> {
    if s.contains(m) {
        s
    } else {
        s.push(m)
    }
}

/// The template at 1-based position `index` of `s`, if there is one.
pub open spec fn entry_at(s: Seq<MetadataView>, index: u64) -> Option<MetadataView> {
    if 1 <= index <= s.len() {
        Some(s[index - 1])
    } else {
        None
    }
}

pub struct MetadataCatalog {
    types: KeyedTable<Vec<TokenMetadata>>,
}

impl MetadataCatalog {
    pub closed spec fn wf(&self) -> bool {
        &&& self.types.wf()
        &&& forall|l: Seq<char>| #[trigger] self.types@.contains_key(l) ==> metadata_views(
            self.types@[l]@,
        ).no_duplicates()
    }

    /// A type's templates hold no repeats; the labels hold no repeats and are
    /// exactly the registered types.
    pub proof fn lemma_wf(&self)
        requires
            self.wf(),
        ensures
            forall|l: Seq<char>| (#[trigger] self.entries_or_empty(l)).no_duplicates(),
            self.labels().no_duplicates(),
            forall|l: Seq<char>| #[trigger] self.labels().contains(l) <==> self.entries(l) is Some,
    {
        self.types.lemma_domain();
        assert forall|l: Seq<char>| (#[trigger] self.entries_or_empty(l)).no_duplicates() by {
            if !self.types@.contains_key(l) {
                assert(self.entries_or_empty(l) =~= Seq::<MetadataView>::empty());
            }
        }
    }

    /// The type labels, in the order in which they were first registered.
    pub closed spec fn labels(&self) -> Seq<Seq<char>> {
        self.types.key_list()
    }

    /// The templates registered under `label`, in insertion order.
    pub closed spec fn entries(&self, label: Seq<char>) -> Option<Seq<MetadataView>> {
        if self.types@.contains_key(label) {
            Some(metadata_views(self.types@[label]@))
        } else {
            None
        }
    }

    /// The templates under `label`, empty where the label is unknown.
    pub open spec fn entries_or_empty(&self, label: Seq<char>) -> Seq<MetadataView> {
        match self.entries(label) {
            Some(s) => s,
            None => Seq::empty(),
        }
    }

    pub fn new() -> (r: Self)
        ensures
            r.wf(),
            r.labels() == Seq::<Seq<char>>::empty(),
            forall|l: Seq<char>| r.entries(l) is None,
    {
        MetadataCatalog { types: KeyedTable::new() }
    }

    /// Adds template `m` under `label`, unless an identical one is there.
    pub fn add(&mut self, label: String, m: TokenMetadata)
        requires
            old(self).wf(),
        ensures
            final(self).wf(),
            final(self).entries(label@) == Some(with_template(old(self).entries_or_empty(label@), m@)),
            forall|l: Seq<char>| l != label@ ==> final(self).entries(l) == old(self).entries(l),
            final(self).labels() == if old(self).entries(label@) is Some {
                old(self).labels()
            } else {
                old(self).labels().push(label@)
            },
    {
        match self.types.find(&label) {
            Some(i) => {
                let mut cur: Vec<TokenMetadata> = Vec::new();
                self.types.swap_at(i, &mut cur);
                let ghost before = metadata_views(cur@);
                let mut found = false;
                let mut j: usize = 0;
                while j < cur.len()
                    invariant
                        j <= cur@.len(),
                        before == metadata_views(cur@),
                        found == exists|k: int| 0 <= k < j && before[k] == m@,
                    decreases cur@.len() - j,
                {
                    assert(before[j as int] == cur@[j as int]@);
                    if cur[j].same_as(&m) {
                        found = true;
                    }
                    assert(found == exists|k: int| 0 <= k < j + 1 && before[k] == m@) by {
                        if exists|k: int| 0 <= k < j + 1 && before[k] == m@ {
                            let k = choose|k: int| 0 <= k < j + 1 && before[k] == m@;
                            if k < j {
                                assert(0 <= k < j && before[k] == m@);
                            }
                        }
                    }
                    j = j + 1;
                }
                if !found {
                    let ghost prev = cur@;
                    cur.push(m);
                    assert(metadata_views(cur@) =~= before.push(m@));
                    assert(!before.contains(m@));
                    proof {
                        lemma_push_no_dup(before, m@);
                    }
                } else {
                    assert(before.contains(m@));
                }
                self.types.swap_at(i, &mut cur);
                assert forall|l: Seq<char>| #[trigger] self.types@.contains_key(l) implies metadata_views(
                    self.types@[l]@,
                ).no_duplicates() by {
                    if l != label@ {
                        assert(old(self).types@.contains_key(l));
                    }
                }
            },
            None => {
                let v = vec![m];
                assert(metadata_views(v@) =~= seq![m@]);
                assert(Seq::<MetadataView>::empty().push(m@) =~= seq![m@]);
                self.types.insert(label, v);
                assert forall|l: Seq<char>| #[trigger] self.types@.contains_key(l) implies metadata_views(
                    self.types@[l]@,
                ).no_duplicates() by {
                    if l != label@ {
                        assert(old(self).types@.contains_key(l));
                    }
                }
            },
        }
    }

    /// How many templates `label` holds; zero for an unknown label.
    pub fn count(&self, label: &String) -> (r: usize)
        requires
            self.wf(),
        ensures
            r == self.entries_or_empty(label@).len(),
    {
        match self.types.get(label) {
            Some(v) => v.len(),
            None => 0,
        }
    }

    /// A copy of the template at 1-based position `index` under `label`;
    /// `None` where the label is unknown or the position out of range.
    pub fn select(&self, label: &String, index: u64) -> (r: Option<TokenMetadata>)
        requires
            self.wf(),
        ensures
            match r {
                Some(t) => entry_at(self.entries_or_empty(label@), index) == Some(t@),
                None => entry_at(self.entries_or_empty(label@), index) is None,
            },
    {
        match self.types.get(label) {
            Some(v) => {
                if 1 <= index && index <= v.len() as u64 {
                    Some(v[(index - 1) as usize].duplicate())
                } else {
                    None
                }
            },
            None => None,
        }
    }

    /// Copies of the templates under `label`; empty for an unknown label.
    pub fn list(&self, label: &String) -> (r: Vec<TokenMetadata>)
        requires
            self.wf(),
        ensures
            metadata_views(r@) == self.entries_or_empty(label@),
    {
        let mut r: Vec<TokenMetadata> = Vec::new();
        match self.types.get(label) {
            Some(v) => {
                let mut i: usize = 0;
                while i < v.len()
                    invariant
                        i <= v@.len(),
                        r@.len() == i,
                        metadata_views(r@) == metadata_views(v@).subrange(0, i as int),
                    decreases v@.len() - i,
                {
                    let c = v[i].duplicate();
                    r.push(c);
                    assert(metadata_views(r@) =~= metadata_views(v@).subrange(0, i + 1));
                    i = i + 1;
                }
                assert(metadata_views(v@).subrange(0, i as int) =~= metadata_views(v@));
            },
            None => {
                assert(metadata_views(r@) =~= Seq::<MetadataView>::empty());
            },
        }
        r
    }

    /// Copies of the type labels, in registration order.
    pub fn label_list(&self) -> (r: Vec<String>)
        ensures
            crate::table::string_views(r@) == self.labels(),
    {
        self.types.keys()
    }
}

} // verus!
