use mixify::query::{query_songs_by_artist, should_add_song};
use mixify::types::{QuerySongsByArtist, QuerySource, Track};

const ARTIST: &str = "artistMain";

fn q(
    include_features: Option<bool>,
    source: Option<QuerySource>,
    must_be_liked: Option<bool>,
) -> QuerySongsByArtist {
    QuerySongsByArtist { artist_id: ARTIST.to_string(), include_features, source, must_be_liked }
}

fn track(id: &str, name: &str, track_artists: &[&str], album_artists: &[&str]) -> Track {
    Track {
        id: Some(id.to_string()),
        name: name.to_string(),
        album_name: format!("{} album", name),
        is_local: false,
        artist_ids: track_artists.iter().map(|s| s.to_string()).collect(),
        album_artist_ids: album_artists.iter().map(|s| s.to_string()).collect(),
    }
}

#[test]
fn unrelated_artist_is_skipped() {
    let t = track("1", "Other", &["someoneElse"], &["someoneElse"]);
    assert_eq!(should_add_song(&t, &q(None, None, None), &vec![]), None);
}

#[test]
fn main_artist_track_is_kept() {
    let t = track("1", "Own", &[ARTIST], &[ARTIST]);
    assert_eq!(should_add_song(&t, &q(None, None, None), &vec![]), Some("1".to_string()));
}

#[test]
fn features_only_keeps_non_main_placements() {
    // On a feature, the artist is credited on the track but not on the album.
    let feature = track("f", "Feat", &[ARTIST, "host"], &["host"]);
    let own = track("o", "Own", &[ARTIST], &[ARTIST]);
    let features_only = q(Some(true), None, None);
    assert_eq!(should_add_song(&feature, &features_only, &vec![]), Some("f".to_string()));
    assert_eq!(should_add_song(&own, &features_only, &vec![]), None);
}

#[test]
fn main_only_keeps_main_artist_placements() {
    let feature = track("f", "Feat", &[ARTIST, "host"], &["host"]);
    let own = track("o", "Own", &[ARTIST], &[ARTIST]);
    let main_only = q(Some(false), None, None);
    assert_eq!(should_add_song(&feature, &main_only, &vec![]), None);
    assert_eq!(should_add_song(&own, &main_only, &vec![]), Some("o".to_string()));
}

#[test]
fn both_polarities_kept_when_unset() {
    let feature = track("f", "Feat", &[ARTIST, "host"], &["host"]);
    let own = track("o", "Own", &[ARTIST], &[ARTIST]);
    let both = q(None, None, None);
    assert!(should_add_song(&feature, &both, &vec![]).is_some());
    assert!(should_add_song(&own, &both, &vec![]).is_some());
}

#[test]
fn local_files_are_skipped() {
    let mut t = track("1", "Own", &[ARTIST], &[ARTIST]);
    t.is_local = true;
    assert_eq!(should_add_song(&t, &q(None, None, None), &vec![]), None);
}

#[test]
fn liked_filter_follows_membership() {
    let t = track("1", "Own", &[ARTIST], &[ARTIST]);
    let liked = vec!["1".to_string()];
    assert!(should_add_song(&t, &q(None, None, Some(true)), &liked).is_some());
    assert!(should_add_song(&t, &q(None, None, Some(true)), &vec![]).is_none());
    assert!(should_add_song(&t, &q(None, None, Some(false)), &liked).is_none());
    assert!(should_add_song(&t, &q(None, None, Some(false)), &vec![]).is_some());
}

#[test]
fn source_restricts_scanned_lists() {
    let liked_track = track("l", "Liked", &[ARTIST], &[ARTIST]);
    let album_track = track("a", "FromAlbum", &[ARTIST], &[ARTIST]);
    let playlist_track = track("p", "FromList", &[ARTIST], &[ARTIST]);
    let liked = vec![liked_track.clone()];
    let albums = vec![album_track.clone()];
    let playlists = vec![playlist_track.clone()];

    let all = query_songs_by_artist(&q(None, None, None), &liked, &albums, &playlists);
    let ids: Vec<String> = all.iter().map(|t| t.id.clone()).collect();
    assert_eq!(ids, vec!["l".to_string(), "a".to_string(), "p".to_string()]);

    let only_albums = query_songs_by_artist(
        &q(None, Some(QuerySource::Albums), None),
        &liked,
        &albums,
        &playlists,
    );
    let ids: Vec<String> = only_albums.iter().map(|t| t.id.clone()).collect();
    assert_eq!(ids, vec!["a".to_string()]);

    let only_liked = query_songs_by_artist(
        &q(None, Some(QuerySource::LikedSongs), None),
        &liked,
        &albums,
        &playlists,
    );
    assert_eq!(only_liked.len(), 1);
    assert_eq!(only_liked[0].id, "l");
}

#[test]
fn query_result_carries_names_and_albums() {
    let t = track("1", "Own", &[ARTIST], &[ARTIST]);
    let r = query_songs_by_artist(&q(None, None, None), &vec![t], &vec![], &vec![]);
    assert_eq!(r.len(), 1);
    assert_eq!(r[0].name, "Own");
    assert_eq!(r[0].album_name, "Own album");
    assert_eq!(r[0].artist_id, ARTIST);
}
