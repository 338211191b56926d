//! Track-Set Store: per node, a desired ("local") and an observed ("remote")
//! ordered track collection, with the operations the executor interprets
//! actions with.

use vstd::prelude::*;

use crate::text::str_eq;
use crate::tracks::{
    chunks_of, compute_save_diff, dedup_tracks, diff_tracks, spec_to_add_ids, spec_to_remove_ids,
    union_tracks, views_of,
};
use crate::types::TrackTuple;

verus! {

/// One node's entry: its desired and observed track collections.
pub struct StoreEntry {
    pub node: String,
    pub desired: Vec<TrackTuple>,
    pub observed: Vec<TrackTuple>,
}

/// The store itself: one entry per node, created on first touch.
pub struct TrackStore {
    pub entries: Vec<StoreEntry>,
}

/// Whether some entry carries `node`.
pub open spec fn store_has(s: Seq<StoreEntry>, node: Seq<char>) -> bool {
    exists|i: int| 0 <= i < s.len() && (#[trigger] s[i].node@) == node
}

/// The first entry index carrying `node`.
pub open spec fn store_index(s: Seq<StoreEntry>, node: Seq<char>) -> Option<int>
    decreases s.len(),
{
    if s.len() == 0 {
        None
    } else if s[0].node@ == node {
        Some(0int)
    } else {
        match store_index(s.skip(1), node) {
            Some(i) => Some(i + 1),
            None => None,
        }
    }
}

pub proof fn lemma_store_index_props(s: Seq<StoreEntry>, node: Seq<char>)
    ensures
        store_index(s, node) matches Some(i) ==> 0 <= i < s.len() && s[i].node@ == node,
        store_index(s, node) is None <==> !store_has(s, node),
    decreases s.len(),
{
    if s.len() == 0 {
    } else {
        lemma_store_index_props(s.skip(1), node);
        if s[0].node@ == node {
        } else {
            assert(forall|j: int| 1 <= j < s.len() ==> s[j] == s.skip(1)[j - 1]);
            if store_has(s, node) {
                let w = choose|i: int| 0 <= i < s.len() && (#[trigger] s[i].node@) == node;
                assert(s.skip(1)[w - 1].node@ == node);
            }
            if store_has(s.skip(1), node) {
                let w = choose|i: int|
                    0 <= i < s.skip(1).len() && (#[trigger] s.skip(1)[i].node@) == node;
                assert(s[w + 1].node@ == node);
            }
        }
    }
}

proof fn lemma_store_index_least(s: Seq<StoreEntry>, node: Seq<char>, i: int)
    requires
        0 <= i < s.len(),
        s[i].node@ == node,
        forall|j: int| 0 <= j < i ==> (#[trigger] s[j].node@) != node,
    ensures
        store_index(s, node) == Some(i),
    decreases i,
{
    if i == 0 {
    } else {
        assert forall|j: int| 0 <= j < i - 1 implies (#[trigger] s.skip(1)[j].node@) != node by {
            assert(s.skip(1)[j] == s[j + 1]);
        }
        assert(s.skip(1)[i - 1] == s[i]);
        lemma_store_index_least(s.skip(1), node, i - 1);
    }
}

/// All entries but `i` unchanged; entry `i` keeps its node name.
pub open spec fn same_but(old_s: Seq<StoreEntry>, new_s: Seq<StoreEntry>, i: int) -> bool {
    &&& new_s.len() == old_s.len()
    &&& forall|j: int| 0 <= j < old_s.len() && j != i ==> new_s[j] == old_s[j]
    &&& new_s[i].node@ == old_s[i].node@
}

impl TrackStore {
    /// An empty store.
    pub fn new() -> (r: TrackStore)
        ensures
            r.entries@ == Seq::<StoreEntry>::empty(),
    {
        TrackStore { entries: Vec::new() }
    }

    /// Whether `node` has an entry yet.
    pub fn contains(&self, node: &str) -> (r: bool)
        ensures
            r == store_has(self.entries@, node@),
    {
        match self.find(node) {
            Some(u) => true,
            None => false,
        }
    }

    /// Finds the first entry of `node`.
    pub fn find(&self, node: &str) -> (r: Option<usize>)
        ensures
            r matches Some(u) ==> store_index(self.entries@, node@) == Some(u as int),
            r is None <==> !store_has(self.entries@, node@),
    {
        let n = self.entries.len();
        let mut i: usize = 0;
        while i < n
            invariant
                i <= n,
                n == self.entries@.len(),
                forall|j: int| 0 <= j < i ==> (#[trigger] self.entries@[j].node@) != node@,
            decreases n - i,
        {
            if str_eq(self.entries[i].node.as_str(), node) {
                proof {
                    lemma_store_index_least(self.entries@, node@, i as int);
                }
                return Some(i);
            }
            i = i + 1;
        }
        proof {
            lemma_store_index_props(self.entries@, node@);
            if store_has(self.entries@, node@) {
                let w = choose|j: int|
                    0 <= j < self.entries@.len() && (#[trigger] self.entries@[j].node@) == node@;
            }
        }
        None
    }

    /// Adds an empty entry for `node` unless one exists.
    pub fn ensure_entry(&mut self, node: &str)
        ensures
            store_has(old(self).entries@, node@) ==> final(self).entries@ == old(self).entries@,
            !store_has(old(self).entries@, node@) ==> {
                &&& final(self).entries@.len() == old(self).entries@.len() + 1
                &&& final(self).entries@.drop_last() == old(self).entries@
                &&& final(self).entries@.last().node@ == node@
                &&& final(self).entries@.last().desired@ == Seq::<TrackTuple>::empty()
                &&& final(self).entries@.last().observed@ == Seq::<TrackTuple>::empty()
            },
            store_has(final(self).entries@, node@),
    {
        if self.find(node).is_none() {
            let entry = StoreEntry {
                node: node.to_owned(),
                desired: Vec::new(),
                observed: Vec::new(),
            };
            let ghost prev = self.entries@;
            self.entries.push(entry);
            proof {
                assert(self.entries@[prev.len() as int].node@ == node@);
                assert(self.entries@.drop_last() =~= prev);
            }
        } else {
            proof {
                lemma_store_index_props(self.entries@, node@);
            }
        }
    }

    /// The desired tracks of entry `i`.
    pub fn desired_at(&self, i: usize) -> (r: &Vec<TrackTuple>)
        requires
            i < self.entries@.len(),
        ensures
            r@ == self.entries@[i as int].desired@,
    {
        &self.entries[i].desired
    }

    /// The observed tracks of entry `i`.
    pub fn observed_at(&self, i: usize) -> (r: &Vec<TrackTuple>)
        requires
            i < self.entries@.len(),
        ensures
            r@ == self.entries@[i as int].observed@,
    {
        &self.entries[i].observed
    }

    /// Replaces entry `i`'s collections, keeping its node name.
    fn set_entry(&mut self, i: usize, desired: Vec<TrackTuple>, observed: Vec<TrackTuple>)
        requires
            i < old(self).entries@.len(),
        ensures
            final(self).entries@ == old(self).entries@.update(
                i as int,
                StoreEntry {
                    node: old(self).entries@[i as int].node,
                    desired,
                    observed,
                },
            ),
    {
        let node = self.entries[i].node.clone();
        self.entries.set(i, StoreEntry { node, desired, observed });
    }

    /// `CopySongs`: unions the source's desired tracks into the sink's
    /// desired set, keeping insertion order and skipping keys already
    /// present.
    pub fn copy_songs(&mut self, src: usize, dst: usize)
        requires
            src < old(self).entries@.len(),
            dst < old(self).entries@.len(),
        ensures
            same_but(old(self).entries@, final(self).entries@, dst as int),
            final(self).entries@[dst as int].desired@ == union_tracks(
                old(self).entries@[dst as int].desired@,
                old(self).entries@[src as int].desired@,
            ),
            final(self).entries@[dst as int].observed@ == old(self).entries@[dst as int].observed@,
    {
        let src_tracks = clone_tracks(&self.entries[src].desired);
        let mut dst_desired = clone_tracks(&self.entries[dst].desired);
        crate::tracks::union_into(&mut dst_desired, &src_tracks);
        let dst_observed = clone_tracks(&self.entries[dst].observed);
        self.set_entry(dst, dst_desired, dst_observed);
    }

    /// `RemoveSongs`: drops from the sink's desired set every key the
    /// source's observed set holds, whoever added it.
    pub fn remove_songs(&mut self, src: usize, dst: usize)
        requires
            src < old(self).entries@.len(),
            dst < old(self).entries@.len(),
        ensures
            same_but(old(self).entries@, final(self).entries@, dst as int),
            final(self).entries@[dst as int].desired@ == diff_tracks(
                old(self).entries@[dst as int].desired@,
                old(self).entries@[src as int].observed@,
            ),
            final(self).entries@[dst as int].observed@ == old(self).entries@[dst as int].observed@,
    {
        let src_observed = clone_tracks(&self.entries[src].observed);
        let dst_desired = crate::tracks::diff_of(&self.entries[dst].desired, &src_observed);
        let dst_observed = clone_tracks(&self.entries[dst].observed);
        self.set_entry(dst, dst_desired, dst_observed);
    }

    /// `QuerySongs`: stores the freshly fetched remote listing as the node's
    /// observed set, and seeds the desired set with the same tracks when it
    /// is still empty, so a first query does not read as all-additions.
    pub fn set_observed(&mut self, i: usize, tracks: Vec<TrackTuple>)
        requires
            i < old(self).entries@.len(),
        ensures
            same_but(old(self).entries@, final(self).entries@, i as int),
            final(self).entries@[i as int].observed@ == tracks@,
            old(self).entries@[i as int].desired@.len() == 0 ==> final(self).entries@[i as int].desired@ == tracks@,
            old(self).entries@[i as int].desired@.len() > 0 ==> final(self).entries@[i as int].desired@ == old(self).entries@[i as int].desired@,
    {
        let desired = if self.entries[i].desired.len() == 0 {
            clone_tracks(&tracks)
        } else {
            clone_tracks(&self.entries[i].desired)
        };
        self.set_entry(i, desired, tracks);
    }

    /// `QuerySongsByArtist`: stores the query result as the node's desired
    /// set.
    pub fn set_desired(&mut self, i: usize, tracks: Vec<TrackTuple>)
        requires
            i < old(self).entries@.len(),
        ensures
            same_but(old(self).entries@, final(self).entries@, i as int),
            final(self).entries@[i as int].desired@ == tracks@,
            final(self).entries@[i as int].observed@ == old(self).entries@[i as int].observed@,
    {
        let observed = clone_tracks(&self.entries[i].observed);
        self.set_entry(i, tracks, observed);
    }

    /// `SaveChanges`: de-duplicates the desired set, computes the minimal
    /// additions and removals against the observed set, batched for the
    /// remote service, and records the node as converged — both collections
    /// become the de-duplicated desired set.
    pub fn save_changes(&mut self, i: usize, batch: usize) -> (r: (Vec<Vec<String>>, Vec<
        Vec<String>,
    >))
        requires
            i < old(self).entries@.len(),
            batch >= 1,
        ensures
            same_but(old(self).entries@, final(self).entries@, i as int),
            final(self).entries@[i as int].desired@ == dedup_tracks(
                old(self).entries@[i as int].desired@,
            ),
            final(self).entries@[i as int].observed@ == dedup_tracks(
                old(self).entries@[i as int].desired@,
            ),
            views_of(r.0@) == chunks_of(
                spec_to_add_ids(
                    old(self).entries@[i as int].desired@,
                    old(self).entries@[i as int].observed@,
                ),
                batch as nat,
            ),
            views_of(r.1@) == chunks_of(
                spec_to_remove_ids(
                    old(self).entries@[i as int].desired@,
                    old(self).entries@[i as int].observed@,
                ),
                batch as nat,
            ),
    {
        let (deduped, to_add, to_remove) = compute_save_diff(
            &self.entries[i].desired,
            &self.entries[i].observed,
            batch,
        );
        let observed = clone_tracks(&deduped);
        self.set_entry(i, deduped, observed);
        (to_add, to_remove)
    }
}

/// An element-wise copy of a track list.
pub fn clone_tracks(v: &Vec<TrackTuple>) -> (r: Vec<TrackTuple>)
    ensures
        r@ == v@,
{
    let n = v.len();
    let mut out: Vec<TrackTuple> = Vec::new();
    let mut i: usize = 0;
    while i < n
        invariant
            i <= n,
            n == v@.len(),
            out@ == v@.take(i as int),
        decreases n - i,
    {
        out.push(v[i].clone());
        proof {
            assert(out@ =~= v@.take(i as int + 1));
        }
        i = i + 1;
    }
    proof {
        assert(v@.take(n as int) =~= v@);
    }
    out
}

} // verus!
