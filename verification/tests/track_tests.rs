use mixify::store::TrackStore;
use mixify::tracks::{chunk_ids, compute_save_diff, dedup_by_key, diff_of, union_into};
use mixify::types::TrackTuple;

fn track(id: &str, name: &str, album: &str) -> TrackTuple {
    TrackTuple {
        id: id.to_string(),
        name: name.to_string(),
        artist_id: "artist1".to_string(),
        album_name: album.to_string(),
    }
}

fn keys(v: &Vec<TrackTuple>) -> Vec<(String, String)> {
    v.iter().map(|t| (t.name.clone(), t.album_name.clone())).collect()
}

#[test]
fn union_skips_present_keys_and_keeps_order() {
    let mut dst = vec![track("1", "Song A", "Album X")];
    let src = vec![
        track("2", "Song A", "Album X"), // same key, different id: skipped
        track("3", "Song B", "Album X"),
    ];
    union_into(&mut dst, &src);
    assert_eq!(keys(&dst), vec![
        ("Song A".to_string(), "Album X".to_string()),
        ("Song B".to_string(), "Album X".to_string()),
    ]);
    assert_eq!(dst[0].id, "1");
}

#[test]
fn copying_twice_equals_copying_once() {
    let a = vec![track("1", "Song A", "Album X")];
    let b = vec![track("2", "Song B", "Album Y"), track("3", "Song C", "Album Y")];
    let mut once = a.clone();
    union_into(&mut once, &b);
    let mut twice = once.clone();
    union_into(&mut twice, &b);
    assert_eq!(keys(&twice), keys(&once));
    assert_eq!(twice.len(), once.len());
}

#[test]
fn removing_twice_equals_removing_once() {
    let a = vec![
        track("1", "Song A", "Album X"),
        track("2", "Song B", "Album Y"),
        track("3", "Song C", "Album Z"),
    ];
    let b = vec![track("9", "Song B", "Album Y")];
    let once = diff_of(&a, &b);
    let twice = diff_of(&once, &b);
    assert_eq!(keys(&once), vec![
        ("Song A".to_string(), "Album X".to_string()),
        ("Song C".to_string(), "Album Z".to_string()),
    ]);
    assert_eq!(keys(&twice), keys(&once));
}

#[test]
fn dedup_collapses_same_name_and_album() {
    // The same recording under two ids collapses into one entry.
    let v = vec![
        track("id-album", "Song A", "Greatest"),
        track("id-single", "Song A", "Greatest"),
        track("id-other", "Song B", "Greatest"),
    ];
    let d = dedup_by_key(&v);
    assert_eq!(d.len(), 2);
    assert_eq!(d[0].id, "id-album");
    assert_eq!(d[1].id, "id-other");
    // Different albums stay distinct entries even with equal names.
    let v2 = vec![track("1", "Song A", "Song A"), track("2", "Song A", "Greatest")];
    assert_eq!(dedup_by_key(&v2).len(), 2);
}

#[test]
fn save_diff_computes_minimal_mutations() {
    let desired = vec![
        track("1", "Song A", "Album X"),
        track("2", "Song B", "Album Y"),
        track("2b", "Song B", "Album Y"), // duplicate key, dropped first
    ];
    let observed = vec![track("1", "Song A", "Album X"), track("4", "Song D", "Album Z")];
    let (deduped, to_add, to_remove) = compute_save_diff(&desired, &observed, 100);
    assert_eq!(deduped.len(), 2);
    assert_eq!(to_add, vec![vec!["2".to_string()]]);
    assert_eq!(to_remove, vec![vec!["4".to_string()]]);
}

#[test]
fn save_after_save_is_empty() {
    let desired = vec![track("1", "Song A", "Album X"), track("2", "Song B", "Album Y")];
    let (converged, _, _) = compute_save_diff(&desired, &Vec::new(), 100);
    // Observed now equals the de-duplicated desired set: nothing to do.
    let (_, to_add, to_remove) = compute_save_diff(&desired, &converged, 100);
    assert!(to_add.is_empty());
    assert!(to_remove.is_empty());
}

#[test]
fn batches_hold_at_most_the_limit() {
    let ids: Vec<String> = (0..250).map(|i| format!("id{}", i)).collect();
    let batches = chunk_ids(ids.clone(), 100);
    assert_eq!(batches.len(), 3);
    assert_eq!(batches[0].len(), 100);
    assert_eq!(batches[1].len(), 100);
    assert_eq!(batches[2].len(), 50);
    let flat: Vec<String> = batches.into_iter().flatten().collect();
    assert_eq!(flat, ids);
    assert!(chunk_ids(Vec::new(), 100).is_empty());
}

#[test]
fn subtract_scenario_reduces_and_removes() {
    // observed(B) = {x, y}, observed(A) = {y}: desired(B) seeds to {x, y},
    // RemoveSongs(A -> B) cuts it to {x}, and the save removes y remotely.
    let mut store = TrackStore::new();
    store.ensure_entry("A");
    store.ensure_entry("B");
    let a = store.find("A").unwrap();
    let b = store.find("B").unwrap();
    let x = track("idx", "Song X", "Album X");
    let y = track("idy", "Song Y", "Album Y");
    store.set_observed(b, vec![x.clone(), y.clone()]);
    store.set_observed(a, vec![y.clone()]);
    assert_eq!(keys(store.desired_at(b)), vec![
        ("Song X".to_string(), "Album X".to_string()),
        ("Song Y".to_string(), "Album Y".to_string()),
    ]);
    store.remove_songs(a, b);
    assert_eq!(keys(store.desired_at(b)), vec![("Song X".to_string(), "Album X".to_string())]);
    let (to_add, to_remove) = store.save_changes(b, 100);
    assert!(to_add.is_empty());
    assert_eq!(to_remove, vec![vec!["idy".to_string()]]);
    // The node is now converged: a second save issues nothing.
    let (to_add2, to_remove2) = store.save_changes(b, 100);
    assert!(to_add2.is_empty());
    assert!(to_remove2.is_empty());
}

#[test]
fn query_seeds_desired_only_when_empty() {
    let mut store = TrackStore::new();
    store.ensure_entry("A");
    let a = store.find("A").unwrap();
    let x = track("1", "Song X", "Album X");
    let y = track("2", "Song Y", "Album Y");
    store.set_observed(a, vec![x.clone()]);
    assert_eq!(store.desired_at(a).len(), 1);
    // A later refresh must not overwrite accumulated desired state.
    store.set_observed(a, vec![x.clone(), y.clone()]);
    assert_eq!(store.desired_at(a).len(), 1);
    assert_eq!(store.observed_at(a).len(), 2);
}

#[test]
fn singles_carry_their_own_name_as_album() {
    assert!(track("1", "Song A", "Song A").is_single());
    assert!(!track("1", "Song A", "Album X").is_single());
}

#[test]
fn track_equality_goes_by_name_and_album() {
    assert_eq!(track("1", "Song A", "Album X"), track("2", "Song A", "Album X"));
    assert_ne!(track("1", "Song A", "Album X"), track("1", "Song A", "Album Y"));
    assert_ne!(track("1", "Song A", "Album X"), track("1", "Song B", "Album X"));
}
