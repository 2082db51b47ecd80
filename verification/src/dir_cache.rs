//! The directory index: for each directory visited, the list of its shown
//! children. The index is written out after every change and read back at
//! start; reading and writing the store is left to the caller, who is
//! handed the pairs to write and hands back the pairs that were read.

use crate::common::{clone_path, clone_paths};
use vstd::prelude::*;

verus! {

/// Directory of the store below the user's cache directory.
pub const STORE_DIR: &'static str = "tundra";

/// Name of the store in that directory.
pub const STORE_FILE: &'static str = "dir_cache.bin";

/// A directory and its children, as character sequences.
pub type PairView = (Seq<char>, Seq<Seq<char>>);

/// The map that a sequence of pairs stands for. Where a directory occurs
/// more than once, its last pair counts.
pub open spec fn assoc_map(pairs: Seq<PairView>) -> Map<Seq<char>, Seq<Seq<char>>>
    decreases pairs.len(),
{
    if pairs.len() == 0 {
        Map::empty()
    } else {
        assoc_map(pairs.drop_last()).insert(pairs.last().0, pairs.last().1)
    }
}

/// The cache that a store yields: the map of its pairs, or the empty map
/// where the store is missing or unreadable.
pub open spec fn restored(stored: Option<Seq<PairView>>) -> Map<Seq<char>, Seq<Seq<char>>> {
    match stored {
        Some(pairs) => assoc_map(pairs),
        None => Map::empty(),
    }
}

/// No directory occurs twice.
pub open spec fn distinct_keys(pairs: Seq<PairView>) -> bool {
    forall|i: int, j: int| 0 <= i < j < pairs.len() ==> pairs[i].0 != pairs[j].0
}

/// Where no directory occurs twice, each pair is what the map holds for
/// its directory.
pub proof fn lemma_assoc_map_holds_pair(pairs: Seq<PairView>, i: int)
    requires
        distinct_keys(pairs),
        0 <= i < pairs.len(),
    ensures
        assoc_map(pairs).contains_key(pairs[i].0),
        assoc_map(pairs)[pairs[i].0] == pairs[i].1,
    decreases pairs.len(),
{
    if i < pairs.len() - 1 {
        let head = pairs.drop_last();
        assert(distinct_keys(head)) by {
            assert forall|a: int, b: int| 0 <= a < b < head.len() implies head[a].0
                != head[b].0 by {
                assert(head[a] == pairs[a] && head[b] == pairs[b]);
            }
        }
        assert(head[i] == pairs[i]);
        lemma_assoc_map_holds_pair(head, i);
    }
}

/// A directory that no pair names is not in the map.
pub proof fn lemma_assoc_map_lacks(pairs: Seq<PairView>, key: Seq<char>)
    requires
        forall|i: int| 0 <= i < pairs.len() ==> pairs[i].0 != key,
    ensures
        !assoc_map(pairs).contains_key(key),
    decreases pairs.len(),
{
    if pairs.len() > 0 {
        let head = pairs.drop_last();
        assert forall|i: int| 0 <= i < head.len() implies head[i].0 != key by {
            assert(head[i] == pairs[i]);
        }
        lemma_assoc_map_lacks(head, key);
    }
}

/// Where no directory occurs twice, replacing the children of pair `i`
/// changes the map at that directory and nowhere else.
pub proof fn lemma_assoc_map_replace(pairs: Seq<PairView>, i: int, children: Seq<Seq<char>>)
    requires
        distinct_keys(pairs),
        0 <= i < pairs.len(),
    ensures
        assoc_map(pairs.update(i, (pairs[i].0, children))) == assoc_map(pairs).insert(
            pairs[i].0,
            children,
        ),
        distinct_keys(pairs.update(i, (pairs[i].0, children))),
    decreases pairs.len(),
{
    let after = pairs.update(i, (pairs[i].0, children));
    let head = pairs.drop_last();
    assert(distinct_keys(after)) by {
        assert forall|a: int, b: int| 0 <= a < b < after.len() implies after[a].0
            != after[b].0 by {
            assert(after[a].0 == pairs[a].0 && after[b].0 == pairs[b].0);
        }
    }
    if i == pairs.len() - 1 {
        assert(after.drop_last() =~= head);
        assert(assoc_map(after) =~= assoc_map(pairs).insert(pairs[i].0, children));
    } else {
        assert(distinct_keys(head)) by {
            assert forall|a: int, b: int| 0 <= a < b < head.len() implies head[a].0
                != head[b].0 by {
                assert(head[a] == pairs[a] && head[b] == pairs[b]);
            }
        }
        assert(head[i] == pairs[i]);
        lemma_assoc_map_replace(head, i, children);
        assert(after.drop_last() =~= head.update(i, (pairs[i].0, children)));
        assert(after.last() == pairs.last());
        assert(pairs.last().0 != pairs[i].0);
        assert(assoc_map(after) =~= assoc_map(pairs).insert(pairs[i].0, children));
    }
}

/// Reading back the store that was written after clearing the cache
/// yields an empty cache.
pub proof fn lemma_invalidate_then_reload()
    ensures
        restored(Some(Seq::<PairView>::empty())) == Map::<Seq<char>, Seq<Seq<char>>>::empty(),
        restored(None) == Map::<Seq<char>, Seq<Seq<char>>>::empty(),
{
}

/// Writing a cache out and reading the store back yields the same cache;
/// so a cache that was just cleared is read back empty.
pub proof fn lemma_reload_after_persist(
    cache: Map<Seq<char>, Seq<Seq<char>>>,
    written: Seq<PairView>,
)
    requires
        assoc_map(written) == cache,
    ensures
        restored(Some(written)) == cache,
        cache == Map::<Seq<char>, Seq<Seq<char>>>::empty() ==> restored(Some(written)).len() == 0,
{
}

/// The cache of directory listings.
#[derive(Debug)]
pub struct DirCache {
    entries: Vec<(String, Vec<String>)>,
}

impl View for DirCache {
    type V = Map<Seq<char>, Seq<Seq<char>>>;

    closed spec fn view(&self) -> Map<Seq<char>, Seq<Seq<char>>> {
        assoc_map(self.entries.deep_view())
    }
}

impl DirCache {
    #[verifier::type_invariant]
    spec fn well_formed(&self) -> bool {
        distinct_keys(self.entries.deep_view())
    }

    /// The pairs that the cache holds, one for each directory.
    pub closed spec fn pairs(&self) -> Seq<PairView> {
        self.entries.deep_view()
    }

    /// The pairs stand for the cache.
    pub proof fn lemma_pairs(&self)
        ensures
            assoc_map(self.pairs()) == self@,
    {
    }

    /// An empty cache.
    pub fn new() -> (cache: DirCache)
        ensures
            cache@ == Map::<Seq<char>, Seq<Seq<char>>>::empty(),
            cache.pairs().len() == 0,
    {
        let cache = DirCache { entries: Vec::new() };
        assert(cache.entries.deep_view() =~= Seq::empty());
        cache
    }

    fn position(&self, k: &String) -> (at: Option<usize>)
        ensures
            match at {
                Some(i) => i < self.entries@.len() && self.entries.deep_view()[i as int].0 == k@,
                None => forall|i: int|
                    0 <= i < self.entries@.len() ==> self.entries.deep_view()[i].0 != k@,
            },
    {
        let mut i: usize = 0;
        while i < self.entries.len()
            invariant
                i <= self.entries@.len(),
                forall|j: int| 0 <= j < i ==> self.entries.deep_view()[j].0 != k@,
            decreases self.entries@.len() - i,
        {
            if self.entries[i].0 == *k {
                return Some(i);
            }
            i = i + 1;
        }
        None
    }

    /// The children stored for `k`, if it has been visited.
    pub fn get(&self, k: &String) -> (children: Option<&Vec<String>>)
        ensures
            match children {
                Some(list) => self@.contains_key(k@) && list.deep_view() == self@[k@],
                None => !self@.contains_key(k@),
            },
    {
        proof {
            use_type_invariant(self);
        }
        match self.position(k) {
            Some(i) => {
                proof {
                    lemma_assoc_map_holds_pair(self.entries.deep_view(), i as int);
                }
                Some(&self.entries[i].1)
            },
            None => {
                proof {
                    lemma_assoc_map_lacks(self.entries.deep_view(), k@);
                }
                None
            },
        }
    }

    /// Whether `k` has been visited.
    pub fn contains_key(&self, k: &String) -> (present: bool)
        ensures
            present == self@.contains_key(k@),
    {
        self.get(k).is_some()
    }

    /// Stores `v` as the children of `k`, in place of what was stored for
    /// it, and returns what was stored before.
    pub fn insert(&mut self, k: String, v: Vec<String>) -> (previous: Option<Vec<String>>)
        ensures
            final(self)@ == old(self)@.insert(k@, v.deep_view()),
            match previous {
                Some(list) => old(self)@.contains_key(k@) && list.deep_view() == old(self)@[k@],
                None => !old(self)@.contains_key(k@),
            },
    {
        proof {
            use_type_invariant(&*self);
        }
        let at = self.position(&k);
        let mut taken = DirCache::new();
        core::mem::swap(self, &mut taken);
        let mut entries = taken.entries;
        let ghost before = entries.deep_view();
        let previous = match at {
            Some(i) => {
                proof {
                    lemma_assoc_map_holds_pair(before, i as int);
                    lemma_assoc_map_replace(before, i as int, v.deep_view());
                }
                let mut pair = entries.remove(i);
                let previous = pair.1;
                pair.1 = v;
                entries.insert(i, pair);
                assert(entries.deep_view() =~= before.update(i as int, (k@, v.deep_view())));
                Some(previous)
            },
            None => {
                proof {
                    lemma_assoc_map_lacks(before, k@);
                    let after = before.push((k@, v.deep_view()));
                    assert forall|a: int, b: int| 0 <= a < b < after.len() implies after[a].0
                        != after[b].0 by {
                        assert(after[a] == before[a]);
                        if b < before.len() {
                            assert(after[b] == before[b]);
                        }
                    }
                }
                entries.push((k, v));
                assert(entries.deep_view() =~= before.push((k@, v.deep_view())));
                assert(entries.deep_view().drop_last() =~= before);
                None
            },
        };
        *self = DirCache { entries };
        previous
    }

    /// Forgets every directory.
    pub fn invalidate(&mut self)
        ensures
            final(self)@ == Map::<Seq<char>, Seq<Seq<char>>>::empty(),
            final(self).pairs().len() == 0,
    {
        self.entries = Vec::new();
        assert(self.entries.deep_view() =~= Seq::empty());
    }

    /// The pairs to write to the store: one for each directory, which
    /// together stand for the cache.
    pub fn persist(&self) -> (written: Vec<(String, Vec<String>)>)
        ensures
            written.deep_view() == self.pairs(),
            assoc_map(written.deep_view()) == self@,
            distinct_keys(written.deep_view()),
    {
        proof {
            use_type_invariant(self);
        }
        let mut written: Vec<(String, Vec<String>)> = Vec::new();
        let mut i: usize = 0;
        while i < self.entries.len()
            invariant
                i <= self.entries@.len(),
                written@.len() == i,
                forall|j: int|
                    0 <= j < i ==> #[trigger] written.deep_view()[j]
                        == self.entries.deep_view()[j],
            decreases self.entries@.len() - i,
        {
            let ghost before = written.deep_view();
            let key = clone_path(&self.entries[i].0);
            let children = clone_paths(&self.entries[i].1);
            written.push((key, children));
            assert(written.deep_view() =~= before.push(self.entries.deep_view()[i as int]));
            i = i + 1;
        }
        assert(written.deep_view() =~= self.entries.deep_view());
        written
    }

    /// The cache at start: what the store held, or an empty cache where the
    /// store was missing or could not be read.
    pub fn get_dir_cache(stored: Option<Vec<(String, Vec<String>)>>) -> (cache: DirCache)
        ensures
            cache@ == restored(
                match stored {
                    Some(pairs) => Some(pairs.deep_view()),
                    None => None,
                },
            ),
    {
        let mut cache = DirCache::new();
        match stored {
            Some(pairs) => {
                let ghost views = pairs.deep_view();
                let mut i: usize = 0;
                assert(views.subrange(0, 0) =~= Seq::empty());
                while i < pairs.len()
                    invariant
                        i <= pairs@.len(),
                        views == pairs.deep_view(),
                        cache@ == assoc_map(views.subrange(0, i as int)),
                    decreases pairs@.len() - i,
                {
                    proof {
                        let next = views.subrange(0, i + 1);
                        assert(next.drop_last() =~= views.subrange(0, i as int));
                        assert(next.last() == views[i as int]);
                    }
                    let key = clone_path(&pairs[i].0);
                    let children = clone_paths(&pairs[i].1);
                    cache.insert(key, children);
                    i = i + 1;
                }
                assert(views.subrange(0, i as int) =~= views);
            },
            None => {},
        }
        cache
    }
}

} // verus!
