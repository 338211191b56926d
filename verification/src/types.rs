//! Core data model: plan actions and track records.

use vstd::prelude::*;

use crate::text::{lower_of, lowercase, str_eq};

verus! {

/// One step of a compiled plan. `node` is the data source, `for_node` the
/// data sink; the two are equal for self-referential actions such as
/// `CreatePlaylist`. `idx` is the recursion depth at emission time and only
/// groups actions into phases for diagnostics: execution follows the literal
/// order of the compiled list.
#[derive(Debug, Clone, PartialEq, Eq)]
pub struct Action {
    pub action_type: ActionType,
    pub node: String,
    pub for_node: String,
    pub idx: usize,
    pub playlist_url: Option<String>,
}

/// What an action does when the executor reaches it.
#[derive(Debug, Clone, PartialEq, Eq)]
pub enum ActionType {
    /// Create the playlist for a derived node; emitted at most once per node.
    CreatePlaylist,
    /// Refresh the observed track set of a node from its remote playlist.
    QuerySongs(Option<String>),
    /// Fill the desired track set of a query node from the user's library.
    QuerySongsByArtist(QuerySongsByArtist),
    /// Diff desired against observed state and push minimal mutations.
    SaveChanges(Option<String>),
    /// Union the source's desired tracks into the sink's desired set.
    CopySongs,
    /// Remove the source's observed tracks from the sink's desired set.
    RemoveSongs,
}

/// Which parts of the user's library an artist query scans.
#[derive(Debug, Clone, Copy, PartialEq, Eq)]
pub enum QuerySource {
    LikedSongs,
    Playlists,
    Albums,
}

impl QuerySource {
    /// Parses a source name, ignoring letter case; `None` for unknown names.
    pub fn from_str(s: &str) -> (r: Option<QuerySource>)
        ensures
            r == Some(QuerySource::LikedSongs) <==> lower_of(s@) == "liked"@,
            r == Some(QuerySource::Playlists) <==> lower_of(s@) == "playlists"@,
            r == Some(QuerySource::Albums) <==> lower_of(s@) == "albums"@,
            r is None <==> (lower_of(s@) != "liked"@ && lower_of(s@) != "playlists"@
                && lower_of(s@) != "albums"@),
    {
        proof {
            reveal_strlit("liked");
            reveal_strlit("playlists");
            reveal_strlit("albums");
            assert("liked"@.len() == 5);
            assert("playlists"@.len() == 9);
            assert("albums"@.len() == 6);
        }
        let low = lowercase(s);
        if str_eq(low.as_str(), "liked") {
            Some(QuerySource::LikedSongs)
        } else if str_eq(low.as_str(), "playlists") {
            Some(QuerySource::Playlists)
        } else if str_eq(low.as_str(), "albums") {
            Some(QuerySource::Albums)
        } else {
            None
        }
    }
}

/// Parameters of an artist-based query node.
#[derive(Debug, PartialEq, Eq)]
pub struct QuerySongsByArtist {
    /// The target artist's id on the remote service.
    pub artist_id: String,
    /// `Some(true)` keeps only placements where the artist is not a main
    /// album artist (features); `Some(false)` keeps only main-artist tracks;
    /// `None` keeps both.
    pub include_features: Option<bool>,
    /// Which library sources to scan; `None` scans all three.
    pub source: Option<QuerySource>,
    /// `Some(true)` keeps only liked tracks, `Some(false)` only non-liked
    /// ones, `None` both.
    pub must_be_liked: Option<bool>,
}

impl Clone for QuerySongsByArtist {
    fn clone(&self) -> (r: QuerySongsByArtist)
        ensures
            r == *self,
    {
        QuerySongsByArtist {
            artist_id: self.artist_id.clone(),
            include_features: self.include_features,
            source: self.source,
            must_be_liked: self.must_be_liked,
        }
    }
}

/// A track as gathered while scanning the user's library for an artist query.
#[derive(Debug, Clone, PartialEq, Eq)]
pub struct Track {
    /// Track id; a local file has none.
    pub id: Option<String>,
    pub name: String,
    pub album_name: String,
    /// True for a file that lives only on the user's machine.
    pub is_local: bool,
    /// Ids of the artists credited on the track itself.
    pub artist_ids: Vec<String>,
    /// Ids of the artists credited on the containing album.
    pub album_artist_ids: Vec<String>,
}

/// A track entry of a node's desired or observed set. Two entries count as
/// the same recording when name and album name agree, whatever their ids:
/// the same recording can appear under different ids across singles, albums
/// and compilations.
#[derive(Debug)]
pub struct TrackTuple {
    pub id: String,
    pub name: String,
    pub artist_id: String,
    pub album_name: String,
}

impl TrackTuple {
    /// The de-duplication key: name and album name, as sequences.
    pub open spec fn key(self) -> (Seq<char>, Seq<char>) {
        (self.name@, self.album_name@)
    }

    /// A single release carries the track's own name as its album name.
    pub fn is_single(&self) -> (r: bool)
        ensures
            r == (self.name@ == self.album_name@),
    {
        str_eq(self.name.as_str(), self.album_name.as_str())
    }
}

impl Clone for TrackTuple {
    fn clone(&self) -> (r: TrackTuple)
        ensures
            r == *self,
    {
        TrackTuple {
            id: self.id.clone(),
            name: self.name.clone(),
            artist_id: self.artist_id.clone(),
            album_name: self.album_name.clone(),
        }
    }
}

impl PartialEq for TrackTuple {
    fn eq(&self, other: &Self) -> (r: bool) {
        str_eq(self.album_name.as_str(), other.album_name.as_str())
            && str_eq(self.name.as_str(), other.name.as_str())
    }
}

impl vstd::std_specs::cmp::PartialEqSpecImpl for TrackTuple {
    open spec fn obeys_eq_spec() -> bool {
        true
    }

    open spec fn eq_spec(&self, other: &TrackTuple) -> bool {
        self.key() == other.key()
    }
}

} // verus!
