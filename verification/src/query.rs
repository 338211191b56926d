//! Artist-query filter: which of the user's library tracks belong to a
//! `QuerySongsByArtist` node.
//!
//! A track qualifies when the target artist is credited on the track or on
//! its containing album, by id membership, never by name. The
//! `include_features` tri-state then narrows to feature-only or
//! main-artist-only placements, `must_be_liked` filters by membership in the
//! liked-tracks list, and `source` restricts which library parts are scanned
//! at all.

use vstd::prelude::*;

use crate::tracks::{contains_id, has_id};
use crate::types::{QuerySongsByArtist, QuerySource, Track, TrackTuple};

verus! {

/// Whether the target artist is a main artist of the track's album: some
/// albums credit several artists (or a various-artists marker), so the
/// album's artist list decides, by id.
pub fn is_main_artist(album_artist_ids: &Vec<String>, artist_id: &String) -> (r: bool)
    ensures
        r == has_id(album_artist_ids@, artist_id@),
{
    contains_id(album_artist_ids, artist_id)
}

/// The id under which a track enters the query result, if it qualifies:
/// local files never do; the artist must be credited on track or album; a
/// feature filter and a liked filter may then drop it. A track without id
/// cannot be added and is skipped.
pub open spec fn spec_should_add(t: Track, q: QuerySongsByArtist, liked_ids: Seq<String>) -> Option<
    String,
> {
    if t.is_local {
        None
    } else {
        let is_main = has_id(t.album_artist_ids@, q.artist_id@);
        let in_song = has_id(t.artist_ids@, q.artist_id@);
        if !is_main && !in_song {
            None
        } else if (match q.include_features {
            Some(features_only) => if features_only {
                is_main
            } else {
                !is_main
            },
            None => false,
        }) {
            None
        } else if t.id is None {
            None
        } else {
            match q.must_be_liked {
                Some(true) => if has_id(liked_ids, t.id->Some_0@) {
                    t.id
                } else {
                    None
                },
                Some(false) => if has_id(liked_ids, t.id->Some_0@) {
                    None
                } else {
                    t.id
                },
                None => t.id,
            }
        }
    }
}

/// Decides [`spec_should_add`] for one track.
pub fn should_add_song(t: &Track, q: &QuerySongsByArtist, liked_ids: &Vec<String>) -> (r: Option<
    String,
>)
    ensures
        r == spec_should_add(*t, *q, liked_ids@),
{
    if t.is_local {
        return None;
    }
    let is_main = is_main_artist(&t.album_artist_ids, &q.artist_id);
    let in_song = contains_id(&t.artist_ids, &q.artist_id);
    if !is_main && !in_song {
        return None;
    }
    let skip = match q.include_features {
        Some(features_only) => if features_only {
            is_main
        } else {
            !is_main
        },
        None => false,
    };
    if skip {
        return None;
    }
    let id = match &t.id {
        Some(id) => id.clone(),
        None => {
            return None;
        },
    };
    match q.must_be_liked {
        Some(true) => {
            if contains_id(liked_ids, &id) {
                Some(id)
            } else {
                None
            }
        },
        Some(false) => {
            if contains_id(liked_ids, &id) {
                None
            } else {
                Some(id)
            }
        },
        None => Some(id),
    }
}

/// The ids of the first `k` liked tracks that carry one.
pub open spec fn liked_ids_upto(liked: Seq<Track>, k: int) -> Seq<String>
    decreases k,
{
    if k <= 0 {
        Seq::empty()
    } else {
        liked_ids_upto(liked, k - 1) + (match liked[k - 1].id {
            Some(id) => seq![id],
            None => Seq::empty(),
        })
    }
}

/// The ids of the liked tracks, for the liked filter.
pub open spec fn liked_ids_of(liked: Seq<Track>) -> Seq<String> {
    liked_ids_upto(liked, liked.len() as int)
}

/// The query entries gathered from the first `k` of one scanned list, in
/// order: each qualifying track under its id, name and album name, credited
/// to the queried artist.
pub open spec fn gathered_upto(
    tracks: Seq<Track>,
    q: QuerySongsByArtist,
    liked_ids: Seq<String>,
    k: int,
) -> Seq<TrackTuple>
    decreases k,
{
    if k <= 0 {
        Seq::empty()
    } else {
        gathered_upto(tracks, q, liked_ids, k - 1) + (match spec_should_add(
            tracks[k - 1],
            q,
            liked_ids,
        ) {
            Some(id) => seq![
                TrackTuple {
                    id,
                    name: tracks[k - 1].name,
                    artist_id: q.artist_id,
                    album_name: tracks[k - 1].album_name,
                },
            ],
            None => Seq::empty(),
        })
    }
}

/// Whether the query scans the given source: `None` scans all three.
pub open spec fn scans(q: QuerySongsByArtist, s: QuerySource) -> bool {
    match q.source {
        None => true,
        Some(chosen) => chosen == s,
    }
}

/// The full query result: the scanned sources' gatherings in a fixed order —
/// liked tracks, then album tracks, then playlist tracks. Duplicates are
/// collapsed later, when the node's changes are saved.
pub open spec fn spec_query_result(
    q: QuerySongsByArtist,
    liked: Seq<Track>,
    album_tracks: Seq<Track>,
    playlist_tracks: Seq<Track>,
) -> Seq<TrackTuple> {
    let liked_ids = liked_ids_of(liked);
    (if scans(q, QuerySource::LikedSongs) {
        gathered_upto(liked, q, liked_ids, liked.len() as int)
    } else {
        Seq::empty()
    }) + (if scans(q, QuerySource::Albums) {
        gathered_upto(album_tracks, q, liked_ids, album_tracks.len() as int)
    } else {
        Seq::empty()
    }) + (if scans(q, QuerySource::Playlists) {
        gathered_upto(playlist_tracks, q, liked_ids, playlist_tracks.len() as int)
    } else {
        Seq::empty()
    })
}

/// The ids of the liked tracks that carry one.
pub fn liked_track_ids(liked: &Vec<Track>) -> (r: Vec<String>)
    ensures
        r@ == liked_ids_of(liked@),
{
    let n = liked.len();
    let mut out: Vec<String> = Vec::new();
    let mut i: usize = 0;
    while i < n
        invariant
            i <= n,
            n == liked@.len(),
            out@ == liked_ids_upto(liked@, i as int),
        decreases n - i,
    {
        match &liked[i].id {
            Some(id) => {
                out.push(id.clone());
                proof {
                    assert(out@ =~= liked_ids_upto(liked@, i as int + 1));
                }
            },
            None => {
                proof {
                    assert(out@ =~= liked_ids_upto(liked@, i as int + 1));
                }
            },
        }
        i = i + 1;
    }
    out
}

/// Gathers the qualifying entries of one scanned list into `out`.
fn gather_into(
    out: &mut Vec<TrackTuple>,
    tracks: &Vec<Track>,
    q: &QuerySongsByArtist,
    liked_ids: &Vec<String>,
)
    ensures
        final(out)@ == old(out)@ + gathered_upto(
            tracks@,
            *q,
            liked_ids@,
            tracks@.len() as int,
        ),
{
    let n = tracks.len();
    let mut i: usize = 0;
    proof {
        assert(out@ =~= out@ + gathered_upto(tracks@, *q, liked_ids@, 0));
    }
    while i < n
        invariant
            i <= n,
            n == tracks@.len(),
            out@ == old(out)@ + gathered_upto(tracks@, *q, liked_ids@, i as int),
        decreases n - i,
    {
        match should_add_song(&tracks[i], q, liked_ids) {
            Some(id) => {
                out.push(
                    TrackTuple {
                        id,
                        name: tracks[i].name.clone(),
                        artist_id: q.artist_id.clone(),
                        album_name: tracks[i].album_name.clone(),
                    },
                );
                proof {
                    assert(out@ =~= old(out)@ + gathered_upto(
                        tracks@,
                        *q,
                        liked_ids@,
                        i as int + 1,
                    ));
                }
            },
            None => {
                proof {
                    assert(out@ =~= old(out)@ + gathered_upto(
                        tracks@,
                        *q,
                        liked_ids@,
                        i as int + 1,
                    ));
                }
            },
        }
        i = i + 1;
    }
}

/// Runs one artist query over the already fetched library: liked tracks,
/// album tracks and playlist tracks, each scanned only if the query's
/// `source` admits it, in that order.
pub fn query_songs_by_artist(
    q: &QuerySongsByArtist,
    liked: &Vec<Track>,
    album_tracks: &Vec<Track>,
    playlist_tracks: &Vec<Track>,
) -> (r: Vec<TrackTuple>)
    ensures
        r@ == spec_query_result(*q, liked@, album_tracks@, playlist_tracks@),
{
    let liked_ids = liked_track_ids(liked);
    let mut out: Vec<TrackTuple> = Vec::new();
    let scan_liked = match q.source {
        None => true,
        Some(QuerySource::LikedSongs) => true,
        Some(_) => false,
    };
    let scan_albums = match q.source {
        None => true,
        Some(QuerySource::Albums) => true,
        Some(_) => false,
    };
    let scan_playlists = match q.source {
        None => true,
        Some(QuerySource::Playlists) => true,
        Some(_) => false,
    };
    if scan_liked {
        gather_into(&mut out, liked, q, &liked_ids);
    }
    if scan_albums {
        gather_into(&mut out, album_tracks, q, &liked_ids);
    }
    if scan_playlists {
        gather_into(&mut out, playlist_tracks, q, &liked_ids);
    }
    proof {
        assert(out@ =~= spec_query_result(*q, liked@, album_tracks@, playlist_tracks@));
    }
    out
}

} // verus!
