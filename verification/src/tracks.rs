//! Track-set operations: order-preserving union, set difference and
//! de-duplication over track entries, keyed by (name, album name), and the
//! batched diff a save issues against the remote service.

use vstd::prelude::*;

use crate::text::str_eq;
use crate::types::TrackTuple;

verus! {

/// Whether some entry of `s` carries the de-duplication key `k`.
pub open spec fn has_key(s: Seq<TrackTuple>, k: (Seq<char>, Seq<char>)) -> bool {
    exists|i: int| 0 <= i < s.len() && (#[trigger] s[i]).key() == k
}

/// The union of `a` and `b`, in insertion order: entries of `b` whose key is
/// already present — in `a` or earlier in `b` — are skipped.
pub open spec fn union_tracks(a: Seq<TrackTuple>, b: Seq<TrackTuple>) -> Seq<TrackTuple>
    decreases b.len(),
{
    if b.len() == 0 {
        a
    } else if has_key(a, b[0].key()) {
        union_tracks(a, b.skip(1))
    } else {
        union_tracks(a.push(b[0]), b.skip(1))
    }
}

/// The entries of the first `k` of `a` whose key does not occur in `b`, in
/// order.
pub open spec fn diff_upto(a: Seq<TrackTuple>, b: Seq<TrackTuple>, k: int) -> Seq<TrackTuple>
    decreases k,
{
    if k <= 0 {
        Seq::empty()
    } else if has_key(b, a[k - 1].key()) {
        diff_upto(a, b, k - 1)
    } else {
        diff_upto(a, b, k - 1) + seq![a[k - 1]]
    }
}

/// The entries of `a` whose key does not occur in `b`, in order.
pub open spec fn diff_tracks(a: Seq<TrackTuple>, b: Seq<TrackTuple>) -> Seq<TrackTuple> {
    diff_upto(a, b, a.len() as int)
}

/// The first `k` of `s` with later repetitions of a key dropped.
pub open spec fn dedup_upto(s: Seq<TrackTuple>, k: int) -> Seq<TrackTuple>
    decreases k,
{
    if k <= 0 {
        Seq::empty()
    } else if has_key(s.take(k - 1), s[k - 1].key()) {
        dedup_upto(s, k - 1)
    } else {
        dedup_upto(s, k - 1) + seq![s[k - 1]]
    }
}

/// `s` with every later repetition of a key dropped: each key keeps its
/// first entry, in first-occurrence order.
pub open spec fn dedup_tracks(s: Seq<TrackTuple>) -> Seq<TrackTuple> {
    dedup_upto(s, s.len() as int)
}

/// Whether `x` occurs among `ids`.
pub open spec fn has_id(ids: Seq<String>, x: Seq<char>) -> bool {
    exists|i: int| 0 <= i < ids.len() && (#[trigger] ids[i])@ == x
}

/// The ids of the first `k` entries, in order.
pub open spec fn ids_upto(s: Seq<TrackTuple>, k: int) -> Seq<String>
    decreases k,
{
    if k <= 0 {
        Seq::empty()
    } else {
        ids_upto(s, k - 1) + seq![s[k - 1].id]
    }
}

/// The ids of all entries, in order.
pub open spec fn ids_of(s: Seq<TrackTuple>) -> Seq<String> {
    ids_upto(s, s.len() as int)
}

/// The first `k` of `a` that do not occur in `b`, in order.
pub open spec fn id_diff_upto(a: Seq<String>, b: Seq<String>, k: int) -> Seq<String>
    decreases k,
{
    if k <= 0 {
        Seq::empty()
    } else if has_id(b, a[k - 1]@) {
        id_diff_upto(a, b, k - 1)
    } else {
        id_diff_upto(a, b, k - 1) + seq![a[k - 1]]
    }
}

/// The ids of `a` that do not occur in `b`, in order.
pub open spec fn id_diff(a: Seq<String>, b: Seq<String>) -> Seq<String> {
    id_diff_upto(a, b, a.len() as int)
}

/// The first `k` of `ids` with later repetitions dropped.
pub open spec fn dedup_ids_upto(ids: Seq<String>, k: int) -> Seq<String>
    decreases k,
{
    if k <= 0 {
        Seq::empty()
    } else if has_id(ids.take(k - 1), ids[k - 1]@) {
        dedup_ids_upto(ids, k - 1)
    } else {
        dedup_ids_upto(ids, k - 1) + seq![ids[k - 1]]
    }
}

/// `ids` with later repetitions dropped.
pub open spec fn dedup_ids(ids: Seq<String>) -> Seq<String> {
    dedup_ids_upto(ids, ids.len() as int)
}

/// Whether an entry with key equal to `t`'s occurs in `v`.
pub fn contains_track(v: &Vec<TrackTuple>, t: &TrackTuple) -> (r: bool)
    ensures
        r == has_key(v@, t.key()),
{
    let n = v.len();
    let mut i: usize = 0;
    while i < n
        invariant
            i <= n,
            n == v@.len(),
            forall|j: int| 0 <= j < i ==> (#[trigger] v@[j]).key() != t.key(),
        decreases n - i,
    {
        if v[i] == *t {
            return true;
        }
        i = i + 1;
    }
    false
}

/// Whether `x` occurs among `ids`.
pub fn contains_id(ids: &Vec<String>, x: &String) -> (r: bool)
    ensures
        r == has_id(ids@, x@),
{
    let n = ids.len();
    let mut i: usize = 0;
    while i < n
        invariant
            i <= n,
            n == ids@.len(),
            forall|j: int| 0 <= j < i ==> (#[trigger] ids@[j])@ != x@,
        decreases n - i,
    {
        if str_eq(ids[i].as_str(), x.as_str()) {
            return true;
        }
        i = i + 1;
    }
    false
}

/// Unions `src` into `dst`, preserving insertion order and skipping entries
/// whose key is already present: the idempotent union a `CopySongs` applies.
pub fn union_into(dst: &mut Vec<TrackTuple>, src: &Vec<TrackTuple>)
    ensures
        final(dst)@ == union_tracks(old(dst)@, src@),
{
    let n = src.len();
    let mut i: usize = 0;
    proof {
        assert(src@.skip(0) =~= src@);
    }
    while i < n
        invariant
            i <= n,
            n == src@.len(),
            union_tracks(old(dst)@, src@) == union_tracks(dst@, src@.skip(i as int)),
        decreases n - i,
    {
        proof {
            assert(src@.skip(i as int)[0] == src@[i as int]);
            assert(src@.skip(i as int).skip(1) =~= src@.skip(i as int + 1));
        }
        if !contains_track(dst, &src[i]) {
            dst.push(src[i].clone());
        }
        i = i + 1;
    }
    proof {
        assert(src@.skip(n as int) =~= Seq::<TrackTuple>::empty());
    }
}

/// The entries of `a` whose key does not occur in `b`: what a `RemoveSongs`
/// keeps, driven by the source's observed tracks.
pub fn diff_of(a: &Vec<TrackTuple>, b: &Vec<TrackTuple>) -> (r: Vec<TrackTuple>)
    ensures
        r@ == diff_tracks(a@, b@),
{
    let n = a.len();
    let mut out: Vec<TrackTuple> = Vec::new();
    let mut i: usize = 0;
    while i < n
        invariant
            i <= n,
            n == a@.len(),
            out@ == diff_upto(a@, b@, i as int),
        decreases n - i,
    {
        if !contains_track(b, &a[i]) {
            out.push(a[i].clone());
            proof {
                assert(out@ =~= diff_upto(a@, b@, i as int + 1));
            }
        }
        i = i + 1;
    }
    out
}

/// De-duplicates by (name, album name), keeping each key's first entry, in
/// first-occurrence order. Two entries of the same recording under different
/// ids collapse into one.
pub fn dedup_by_key(s: &Vec<TrackTuple>) -> (r: Vec<TrackTuple>)
    ensures
        r@ == dedup_tracks(s@),
{
    let n = s.len();
    let mut out: Vec<TrackTuple> = Vec::new();
    let mut i: usize = 0;
    while i < n
        invariant
            i <= n,
            n == s@.len(),
            out@ == dedup_upto(s@, i as int),
            forall|k: (Seq<char>, Seq<char>)|
                #[trigger] has_key(out@, k) == has_key(s@.take(i as int), k),
        decreases n - i,
    {
        let ghost prev = out@;
        if !contains_track(&out, &s[i]) {
            out.push(s[i].clone());
            proof {
                assert(out@ =~= dedup_upto(s@, i as int + 1));
            }
        }
        proof {
            assert forall|k: (Seq<char>, Seq<char>)| #[trigger] has_key(out@, k) == has_key(
                s@.take(i as int + 1),
                k,
            ) by {
                let cur = s@.take(i as int + 1);
                assert(cur.len() == i + 1);
                assert(cur[i as int] == s@[i as int]);
                assert(forall|j: int| 0 <= j < i ==> cur[j] == s@.take(i as int)[j]);
                if has_key(out@, k) {
                    let w = choose|x: int|
                        0 <= x < out@.len() && (#[trigger] out@[x]).key() == k;
                    if w < prev.len() && out@[w] == prev[w] {
                        assert(has_key(prev, k));
                        let y = choose|x: int|
                            0 <= x < s@.take(i as int).len() && (#[trigger] s@.take(
                                i as int,
                            )[x]).key() == k;
                        assert(cur[y] == s@.take(i as int)[y]);
                        assert(has_key(cur, k));
                    } else {
                        assert(out@[w].key() == s@[i as int].key());
                        assert(has_key(cur, k));
                    }
                }
                if has_key(cur, k) {
                    let w = choose|x: int| 0 <= x < cur.len() && (#[trigger] cur[x]).key() == k;
                    if w < i {
                        assert(s@.take(i as int)[w] == cur[w]);
                        assert(has_key(s@.take(i as int), k));
                        assert(has_key(prev, k));
                        let y = choose|x: int|
                            0 <= x < prev.len() && (#[trigger] prev[x]).key() == k;
                        assert(out@.len() >= prev.len());
                        assert(out@[y] == prev[y]);
                        assert(has_key(out@, k));
                    } else {
                        assert(cur[w] == s@[i as int]);
                        if has_key(s@.take(i as int), k) {
                            assert(has_key(prev, k));
                            let y = choose|x: int|
                                0 <= x < prev.len() && (#[trigger] prev[x]).key() == k;
                            assert(out@[y] == prev[y]);
                            assert(has_key(out@, k));
                        } else {
                            assert(!has_key(prev, k));
                            assert(out@.last().key() == k);
                            assert(has_key(out@, k));
                        }
                    }
                }
            }
        }
        i = i + 1;
    }
    proof {
        assert(s@.take(n as int) =~= s@);
    }
    out
}

/// The views of a list of id batches.
pub open spec fn views_of(v: Seq<Vec<String>>) -> Seq<Seq<String>> {
    v.map_values(|x: Vec<String>| x@)
}

/// `ids` cut into batches of at most `size`, in order.
pub open spec fn chunks_of(ids: Seq<String>, size: nat) -> Seq<Seq<String>>
    decreases ids.len(),
        when size >= 1
{
    if ids.len() == 0 {
        Seq::empty()
    } else if ids.len() <= size {
        seq![ids]
    } else {
        seq![ids.take(size as int)] + chunks_of(ids.skip(size as int), size)
    }
}

/// The ids a save must add: the de-duplicated desired entries whose key the
/// observed set lacks, one id per distinct id.
pub open spec fn spec_to_add_ids(desired: Seq<TrackTuple>, observed: Seq<TrackTuple>) -> Seq<
    String,
> {
    dedup_ids(ids_of(diff_tracks(dedup_tracks(desired), observed)))
}

/// The ids a save must remove: observed ids that no desired entry keeps.
pub open spec fn spec_to_remove_ids(desired: Seq<TrackTuple>, observed: Seq<TrackTuple>) -> Seq<
    String,
> {
    id_diff(ids_of(observed), ids_of(dedup_tracks(desired)))
}

/// The ids of the entries, in order.
pub fn track_ids(v: &Vec<TrackTuple>) -> (r: Vec<String>)
    ensures
        r@ == ids_of(v@),
{
    let n = v.len();
    let mut out: Vec<String> = Vec::new();
    let mut i: usize = 0;
    while i < n
        invariant
            i <= n,
            n == v@.len(),
            out@ == ids_upto(v@, i as int),
        decreases n - i,
    {
        out.push(v[i].id.clone());
        proof {
            assert(out@ =~= ids_upto(v@, i as int + 1));
        }
        i = i + 1;
    }
    out
}

/// The ids of `a` that do not occur among `b`, in order.
pub fn id_diff_of(a: &Vec<String>, b: &Vec<String>) -> (r: Vec<String>)
    ensures
        r@ == id_diff(a@, b@),
{
    let n = a.len();
    let mut out: Vec<String> = Vec::new();
    let mut i: usize = 0;
    while i < n
        invariant
            i <= n,
            n == a@.len(),
            out@ == id_diff_upto(a@, b@, i as int),
        decreases n - i,
    {
        if !contains_id(b, &a[i]) {
            out.push(a[i].clone());
            proof {
                assert(out@ =~= id_diff_upto(a@, b@, i as int + 1));
            }
        }
        i = i + 1;
    }
    out
}

/// Drops later repetitions of an id, keeping first occurrences in order.
pub fn dedup_id_list(ids: &Vec<String>) -> (r: Vec<String>)
    ensures
        r@ == dedup_ids(ids@),
{
    let n = ids.len();
    let mut out: Vec<String> = Vec::new();
    let mut i: usize = 0;
    while i < n
        invariant
            i <= n,
            n == ids@.len(),
            out@ == dedup_ids_upto(ids@, i as int),
            forall|x: Seq<char>| #[trigger] has_id(out@, x) == has_id(ids@.take(i as int), x),
        decreases n - i,
    {
        let ghost prev = out@;
        if !contains_id(&out, &ids[i]) {
            out.push(ids[i].clone());
            proof {
                assert(out@ =~= dedup_ids_upto(ids@, i as int + 1));
            }
        }
        proof {
            assert forall|x: Seq<char>| #[trigger] has_id(out@, x) == has_id(
                ids@.take(i as int + 1),
                x,
            ) by {
                let cur = ids@.take(i as int + 1);
                assert(cur[i as int] == ids@[i as int]);
                assert(forall|j: int| 0 <= j < i ==> cur[j] == ids@.take(i as int)[j]);
                if has_id(out@, x) {
                    let w = choose|y: int| 0 <= y < out@.len() && (#[trigger] out@[y])@ == x;
                    if w < prev.len() && out@[w] == prev[w] {
                        assert(has_id(prev, x));
                        let y = choose|z: int|
                            0 <= z < ids@.take(i as int).len() && (#[trigger] ids@.take(
                                i as int,
                            )[z])@ == x;
                        assert(cur[y] == ids@.take(i as int)[y]);
                        assert(has_id(cur, x));
                    } else {
                        assert(out@[w]@ == ids@[i as int]@);
                        assert(has_id(cur, x));
                    }
                }
                if has_id(cur, x) {
                    let w = choose|y: int| 0 <= y < cur.len() && (#[trigger] cur[y])@ == x;
                    if w < i {
                        assert(ids@.take(i as int)[w] == cur[w]);
                        assert(has_id(ids@.take(i as int), x));
                        assert(has_id(prev, x));
                        let y = choose|z: int|
                            0 <= z < prev.len() && (#[trigger] prev[z])@ == x;
                        assert(out@[y] == prev[y]);
                        assert(has_id(out@, x));
                    } else {
                        assert(cur[w] == ids@[i as int]);
                        if has_id(ids@.take(i as int), x) {
                            assert(has_id(prev, x));
                            let y = choose|z: int|
                                0 <= z < prev.len() && (#[trigger] prev[z])@ == x;
                            assert(out@[y] == prev[y]);
                            assert(has_id(out@, x));
                        } else {
                            assert(!has_id(prev, x));
                            assert(out@.last()@ == x);
                            assert(has_id(out@, x));
                        }
                    }
                }
            }
        }
        i = i + 1;
    }
    proof {
        assert(ids@.take(n as int) =~= ids@);
    }
    out
}

/// Cuts `ids` into batches of at most `size`, in order: remote add and
/// remove calls take at most a fixed number of items each.
pub fn chunk_ids(ids: Vec<String>, size: usize) -> (r: Vec<Vec<String>>)
    requires
        size >= 1,
    ensures
        views_of(r@) == chunks_of(ids@, size as nat),
{
    let n = ids.len();
    let mut out: Vec<Vec<String>> = Vec::new();
    let mut i: usize = 0;
    proof {
        assert(ids@.skip(0) =~= ids@);
        assert(views_of(out@) + chunks_of(ids@.skip(0), size as nat) =~= chunks_of(
            ids@,
            size as nat,
        ));
    }
    while i < n
        invariant
            i <= n,
            n == ids@.len(),
            size >= 1,
            views_of(out@) + chunks_of(ids@.skip(i as int), size as nat) =~= chunks_of(
                ids@,
                size as nat,
            ),
        decreases n - i,
    {
        let c = if n - i <= size {
            n - i
        } else {
            size
        };
        let mut chunk: Vec<String> = Vec::new();
        let mut j: usize = 0;
        while j < c
            invariant
                j <= c,
                i + c <= n,
                n == ids@.len(),
                chunk@ == ids@.skip(i as int).take(j as int),
            decreases c - j,
        {
            chunk.push(ids[i + j].clone());
            proof {
                assert(chunk@ =~= ids@.skip(i as int).take(j as int + 1));
            }
            j = j + 1;
        }
        let ghost rest = ids@.skip(i as int);
        proof {
            assert(rest.len() == n - i);
            if rest.len() <= size {
                assert(chunk@ =~= rest);
                assert(chunks_of(rest, size as nat) == seq![rest]);
            } else {
                assert(chunk@ =~= rest.take(size as int));
            }
            assert(rest.skip(c as int) =~= ids@.skip(i as int + c));
        }
        let ghost out_before = out@;
        out.push(chunk);
        proof {
            assert(out@ =~= out_before.push(chunk));
            assert(views_of(out@) =~= views_of(out_before).push(chunk@));
            assert(views_of(out@) + chunks_of(ids@.skip(i as int + c), size as nat) =~= chunks_of(
                ids@,
                size as nat,
            ));
        }
        i = i + c;
    }
    proof {
        assert(ids@.skip(n as int) =~= Seq::<String>::empty());
        assert(views_of(out@) + chunks_of(ids@.skip(n as int), size as nat) =~= views_of(out@));
    }
    out
}

/// Computes one save: de-duplicates the desired entries, then the minimal
/// additions and removals against the observed entries, already batched.
/// Returns the de-duplicated desired list and the add/remove batches.
pub fn compute_save_diff(desired: &Vec<TrackTuple>, observed: &Vec<TrackTuple>, batch: usize) -> (r:
    (Vec<TrackTuple>, Vec<Vec<String>>, Vec<Vec<String>>))
    requires
        batch >= 1,
    ensures
        r.0@ == dedup_tracks(desired@),
        views_of(r.1@) == chunks_of(spec_to_add_ids(desired@, observed@), batch as nat),
        views_of(r.2@) == chunks_of(spec_to_remove_ids(desired@, observed@), batch as nat),
{
    let deduped = dedup_by_key(desired);
    let added = diff_of(&deduped, observed);
    let to_add = dedup_id_list(&track_ids(&added));
    let to_remove = id_diff_of(&track_ids(observed), &track_ids(&deduped));
    let add_batches = chunk_ids(to_add, batch);
    let remove_batches = chunk_ids(to_remove, batch);
    (deduped, add_batches, remove_batches)
}

proof fn lemma_has_key_head(b: Seq<TrackTuple>, k: (Seq<char>, Seq<char>))
    requires
        b.len() > 0,
    ensures
        has_key(b, k) <==> (b[0].key() == k || has_key(b.skip(1), k)),
{
    if has_key(b, k) {
        let w = choose|i: int| 0 <= i < b.len() && (#[trigger] b[i]).key() == k;
        if w > 0 {
            assert(b.skip(1)[w - 1] == b[w]);
        }
    }
    if has_key(b.skip(1), k) {
        let w = choose|i: int| 0 <= i < b.skip(1).len() && (#[trigger] b.skip(1)[i]).key() == k;
        assert(b[w + 1] == b.skip(1)[w]);
    }
}

proof fn lemma_has_key_push(a: Seq<TrackTuple>, t: TrackTuple, k: (Seq<char>, Seq<char>))
    ensures
        has_key(a.push(t), k) <==> (has_key(a, k) || t.key() == k),
{
    if has_key(a.push(t), k) {
        let w = choose|i: int| 0 <= i < a.push(t).len() && (#[trigger] a.push(t)[i]).key() == k;
        if w < a.len() {
            assert(a[w] == a.push(t)[w]);
        }
    }
    if has_key(a, k) {
        let w = choose|i: int| 0 <= i < a.len() && (#[trigger] a[i]).key() == k;
        assert(a.push(t)[w] == a[w]);
    }
    assert(a.push(t)[a.len() as int] == t);
}

/// A key occurs in a union exactly when it occurs on either side.
pub proof fn lemma_union_has_key(a: Seq<TrackTuple>, b: Seq<TrackTuple>, k: (Seq<char>, Seq<char>))
    ensures
        has_key(union_tracks(a, b), k) <==> (has_key(a, k) || has_key(b, k)),
    decreases b.len(),
{
    if b.len() == 0 {
    } else {
        lemma_has_key_head(b, k);
        if has_key(a, b[0].key()) {
            lemma_union_has_key(a, b.skip(1), k);
        } else {
            lemma_union_has_key(a.push(b[0]), b.skip(1), k);
            lemma_has_key_push(a, b[0], k);
        }
    }
}

proof fn lemma_union_absorbed(a: Seq<TrackTuple>, b: Seq<TrackTuple>)
    requires
        forall|i: int| 0 <= i < b.len() ==> has_key(a, (#[trigger] b[i]).key()),
    ensures
        union_tracks(a, b) == a,
    decreases b.len(),
{
    if b.len() > 0 {
        assert(has_key(a, b[0].key()));
        assert(forall|i: int|
            0 <= i < b.skip(1).len() ==> (#[trigger] b.skip(1)[i]) == b[i + 1]);
        lemma_union_absorbed(a, b.skip(1));
    }
}

/// Copying a source into a node twice leaves the same desired set as doing
/// it once: the union skips every key its first pass already added.
pub proof fn lemma_copy_songs_idempotent(a: Seq<TrackTuple>, b: Seq<TrackTuple>)
    ensures
        union_tracks(union_tracks(a, b), b) == union_tracks(a, b),
{
    let u = union_tracks(a, b);
    assert forall|i: int| 0 <= i < b.len() implies has_key(u, (#[trigger] b[i]).key()) by {
        assert(has_key(b, b[i].key()));
        lemma_union_has_key(a, b, b[i].key());
    }
    lemma_union_absorbed(u, b);
}

proof fn lemma_diff_elems(a: Seq<TrackTuple>, b: Seq<TrackTuple>, k: int)
    requires
        k <= a.len(),
    ensures
        forall|i: int|
            0 <= i < diff_upto(a, b, k).len() ==> !has_key(b, (#[trigger] diff_upto(a, b, k)[i]).key()),
    decreases k,
{
    if k > 0 {
        lemma_diff_elems(a, b, k - 1);
        let s = diff_upto(a, b, k);
        let prev = diff_upto(a, b, k - 1);
        assert forall|i: int| 0 <= i < s.len() implies !has_key(b, (#[trigger] s[i]).key()) by {
            if !has_key(b, a[k - 1].key()) {
                if i < prev.len() {
                    assert(s[i] == prev[i]);
                } else {
                    assert(s[i] == a[k - 1]);
                }
            } else {
                assert(s[i] == prev[i]);
            }
        }
    }
}

proof fn lemma_diff_none(s: Seq<TrackTuple>, b: Seq<TrackTuple>, k: int)
    requires
        0 <= k <= s.len(),
        forall|i: int| 0 <= i < s.len() ==> !has_key(b, (#[trigger] s[i]).key()),
    ensures
        diff_upto(s, b, k) == s.take(k),
    decreases k,
{
    if k == 0 {
        assert(diff_upto(s, b, 0) =~= s.take(0));
    } else {
        lemma_diff_none(s, b, k - 1);
        assert(!has_key(b, s[k - 1].key()));
        assert(diff_upto(s, b, k) =~= s.take(k));
    }
}

/// Removing the same source twice in a row is a no-op: the second pass finds
/// none of the removed keys present any more.
pub proof fn lemma_remove_songs_idempotent(a: Seq<TrackTuple>, b: Seq<TrackTuple>)
    ensures
        diff_tracks(diff_tracks(a, b), b) == diff_tracks(a, b),
{
    let d = diff_tracks(a, b);
    lemma_diff_elems(a, b, a.len() as int);
    lemma_diff_none(d, b, d.len() as int);
    assert(d.take(d.len() as int) =~= d);
}

proof fn lemma_diff_self(s: Seq<TrackTuple>, k: int)
    requires
        0 <= k <= s.len(),
    ensures
        diff_upto(s, s, k) == Seq::<TrackTuple>::empty(),
    decreases k,
{
    if k > 0 {
        lemma_diff_self(s, k - 1);
        assert(has_key(s, s[k - 1].key()));
    }
}

proof fn lemma_id_diff_self(ids: Seq<String>, k: int)
    requires
        0 <= k <= ids.len(),
    ensures
        id_diff_upto(ids, ids, k) == Seq::<String>::empty(),
    decreases k,
{
    if k > 0 {
        lemma_id_diff_self(ids, k - 1);
        assert(has_id(ids, ids[k - 1]@));
    }
}

/// Saving a node whose observed set already equals its de-duplicated desired
/// set issues nothing: compiling and applying the same graph twice with no
/// remote change in between finds an empty diff the second time.
pub proof fn lemma_save_round_trip(desired: Seq<TrackTuple>)
    ensures
        spec_to_add_ids(desired, dedup_tracks(desired)) == Seq::<String>::empty(),
        spec_to_remove_ids(desired, dedup_tracks(desired)) == Seq::<String>::empty(),
{
    let dd = dedup_tracks(desired);
    lemma_diff_self(dd, dd.len() as int);
    lemma_id_diff_self(ids_of(dd), ids_of(dd).len() as int);
}

proof fn lemma_dedup_upto_props(s: Seq<TrackTuple>, k: int)
    requires
        0 <= k <= s.len(),
    ensures
        forall|i: int, j: int|
            0 <= i < j < dedup_upto(s, k).len() ==> (#[trigger] dedup_upto(s, k)[i]).key() != (
            #[trigger] dedup_upto(s, k)[j]).key(),
        forall|q: (Seq<char>, Seq<char>)|
            #[trigger] has_key(dedup_upto(s, k), q) == has_key(s.take(k), q),
    decreases k,
{
    if k == 0 {
        assert forall|q: (Seq<char>, Seq<char>)| #[trigger] has_key(dedup_upto(s, 0), q)
            == has_key(s.take(0), q) by {
            assert(dedup_upto(s, 0).len() == 0);
            assert(s.take(0).len() == 0);
        }
    } else {
        lemma_dedup_upto_props(s, k - 1);
        let d = dedup_upto(s, k);
        let prev = dedup_upto(s, k - 1);
        let cur = s.take(k);
        assert(cur[k - 1] == s[k - 1]);
        assert(forall|j: int| 0 <= j < k - 1 ==> cur[j] == s.take(k - 1)[j]);
        assert forall|q: (Seq<char>, Seq<char>)| #[trigger] has_key(cur, q) == (has_key(
            s.take(k - 1),
            q,
        ) || s[k - 1].key() == q) by {
            if has_key(cur, q) {
                let w = choose|i: int| 0 <= i < cur.len() && (#[trigger] cur[i]).key() == q;
                if w < k - 1 {
                    assert(s.take(k - 1)[w] == cur[w]);
                }
            }
            if has_key(s.take(k - 1), q) {
                let w = choose|i: int|
                    0 <= i < s.take(k - 1).len() && (#[trigger] s.take(k - 1)[i]).key() == q;
                assert(cur[w] == s.take(k - 1)[w]);
            }
            assert(cur[k - 1].key() == s[k - 1].key());
        }
        if has_key(s.take(k - 1), s[k - 1].key()) {
            assert(d == prev);
        } else {
            assert(d == prev + seq![s[k - 1]]);
            assert forall|i: int, j: int| 0 <= i < j < d.len() implies (#[trigger] d[i]).key()
                != (#[trigger] d[j]).key() by {
                if j < prev.len() {
                    assert(d[i] == prev[i] && d[j] == prev[j]);
                } else {
                    assert(d[j] == s[k - 1]);
                    assert(d[i] == prev[i]);
                    assert(has_key(prev, prev[i].key()));
                    assert(!has_key(prev, s[k - 1].key()));
                }
            }
            assert forall|q: (Seq<char>, Seq<char>)| #[trigger] has_key(d, q) == has_key(
                cur,
                q,
            ) by {
                lemma_has_key_push_seq(prev, s[k - 1], q);
            }
        }
    }
}

proof fn lemma_has_key_push_seq(a: Seq<TrackTuple>, t: TrackTuple, q: (Seq<char>, Seq<char>))
    ensures
        has_key(a + seq![t], q) <==> (has_key(a, q) || t.key() == q),
{
    assert(a + seq![t] =~= a.push(t));
    lemma_has_key_push(a, t, q);
}

/// De-duplication leaves each key exactly once: no two entries of the result
/// share a key, and exactly the input's keys survive.
pub proof fn lemma_dedup_props(s: Seq<TrackTuple>)
    ensures
        forall|i: int, j: int|
            0 <= i < j < dedup_tracks(s).len() ==> (#[trigger] dedup_tracks(s)[i]).key() != (
            #[trigger] dedup_tracks(s)[j]).key(),
        forall|q: (Seq<char>, Seq<char>)| #[trigger] has_key(dedup_tracks(s), q) == has_key(s, q),
    decreases s.len(),
{
    lemma_dedup_upto_props(s, s.len() as int);
    assert(s.take(s.len() as int) =~= s);
}


proof fn lemma_unique_keys_dedup_fixed(s: Seq<TrackTuple>, k: int)
    requires
        0 <= k <= s.len(),
        forall|i: int, j: int|
            0 <= i < j < s.len() ==> (#[trigger] s[i]).key() != (#[trigger] s[j]).key(),
    ensures
        dedup_upto(s, k) == s.take(k),
    decreases k,
{
    if k == 0 {
        assert(dedup_upto(s, 0) =~= s.take(0));
    } else {
        lemma_unique_keys_dedup_fixed(s, k - 1);
        if has_key(s.take(k - 1), s[k - 1].key()) {
            let w = choose|i: int|
                0 <= i < s.take(k - 1).len() && (#[trigger] s.take(k - 1)[i]).key() == s[k
                    - 1].key();
            assert(s[w] == s.take(k - 1)[w]);
            assert(false);
        }
        assert(dedup_upto(s, k) =~= s.take(k));
    }
}

/// De-duplication settles in one pass: a second pass changes nothing.
pub proof fn lemma_dedup_idempotent(s: Seq<TrackTuple>)
    ensures
        dedup_tracks(dedup_tracks(s)) == dedup_tracks(s),
{
    let d = dedup_tracks(s);
    lemma_dedup_props(s);
    lemma_unique_keys_dedup_fixed(d, d.len() as int);
    assert(d.take(d.len() as int) =~= d);
}

/// A node just saved is converged: saving it again — its desired and
/// observed sets both the de-duplicated desired set — issues no additions
/// and no removals.
pub proof fn lemma_second_save_is_empty(desired: Seq<TrackTuple>)
    ensures
        spec_to_add_ids(dedup_tracks(desired), dedup_tracks(desired)) == Seq::<String>::empty(),
        spec_to_remove_ids(dedup_tracks(desired), dedup_tracks(desired)) == Seq::<String>::empty(),
{
    let dd = dedup_tracks(desired);
    lemma_dedup_idempotent(desired);
    lemma_diff_self(dd, dd.len() as int);
    lemma_id_diff_self(ids_of(dd), ids_of(dd).len() as int);
}


} // verus!
