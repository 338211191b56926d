//! Reconciliation Executor support: the verified pieces the apply loop is
//! built from — registering a plan into the Track-Set Store, node-to-playlist
//! reference bookkeeping, id extraction and validation, and the texts a
//! created playlist carries.
//!
//! The remote calls themselves (create, fetch, add, remove) stay with the
//! caller; every decision between two calls is made here.

use vstd::prelude::*;

use crate::errors::Error;
use crate::graph::{first_attr, get_attr, Graph};
use crate::store::{store_has, TrackStore};
use crate::text::{last_segment, spec_join, spec_last_segment, str_eq};
use crate::tracks::has_id;
use crate::types::{Action, Track, TrackTuple};

verus! {

/// A character the remote service accepts in an object id.
pub open spec fn is_id_char(c: char) -> bool {
    ('0' <= c && c <= '9') || ('a' <= c && c <= 'z') || ('A' <= c && c <= 'Z')
}

/// A well-formed object id: ASCII alphanumeric throughout.
pub open spec fn spec_valid_id(s: Seq<char>) -> bool {
    forall|i: int| 0 <= i < s.len() ==> is_id_char(#[trigger] s[i])
}

/// Relies on rspotify's PlaylistId::from_id: it accepts exactly the strings
/// whose characters are all ASCII alphanumeric.
#[verifier::external_body]
fn playlist_id_ok(s: &str) -> (r: bool)
    ensures
        r == spec_valid_id(s@),
{
    rspotify::model::PlaylistId::from_id(s).is_ok()
}

/// Relies on rspotify's ArtistId::from_id: it accepts exactly the strings
/// whose characters are all ASCII alphanumeric.
#[verifier::external_body]
fn artist_id_ok(s: &str) -> (r: bool)
    ensures
        r == spec_valid_id(s@),
{
    rspotify::model::ArtistId::from_id(s).is_ok()
}

/// The playlist id a reference URL carries: its last path segment. Rejected,
/// with the node and the raw URL, when the service would not accept it.
pub fn parse_playlist_id(node: &str, url: &str) -> (r: Result<String, Error>)
    ensures
        r matches Ok(id) ==> id@ == spec_last_segment(url@, '/') && spec_valid_id(id@),
        r matches Err(e) ==> !spec_valid_id(spec_last_segment(url@, '/')) && (e matches
        Error::InvalidPlaylistId { node: en, raw: er } && en@ == node@ && er@ == url@),
        (r is Ok) == spec_valid_id(spec_last_segment(url@, '/')),
{
    let id = last_segment(url, '/');
    if playlist_id_ok(id.as_str()) {
        Ok(id)
    } else {
        Err(Error::InvalidPlaylistId { node: node.to_owned(), raw: url.to_owned() })
    }
}

/// Checks an artist id before any remote query uses it.
pub fn check_artist_id(artist_id: &str) -> (r: Result<(), Error>)
    ensures
        r matches Ok(u) ==> spec_valid_id(artist_id@),
        r matches Err(e) ==> !spec_valid_id(artist_id@) && (e matches Error::InvalidArtistId {
            raw: er,
        } && er@ == artist_id@),
        (r is Ok) == spec_valid_id(artist_id@),
{
    if artist_id_ok(artist_id) {
        Ok(())
    } else {
        Err(Error::InvalidArtistId { raw: artist_id.to_owned() })
    }
}

/// The node-to-playlist-reference map. Lookups take the first match, and an
/// insert goes to the front, so it overrides earlier entries.
pub struct NodeRefs {
    pub entries: Vec<(String, String)>,
}

impl NodeRefs {
    /// An empty map.
    pub fn new() -> (r: NodeRefs)
        ensures
            r.entries@ == Seq::<(String, String)>::empty(),
    {
        NodeRefs { entries: Vec::new() }
    }

    /// The playlist id recorded for `node`.
    pub fn get(&self, node: &str) -> (r: Option<String>)
        ensures
            r matches Some(id) ==> first_attr(self.entries@, node@) matches Some(p) && p.1 == id,
            r is None <==> first_attr(self.entries@, node@) is None,
    {
        match get_attr(&self.entries, node) {
            Some(p) => Some(p.1),
            None => None,
        }
    }

    /// Records `id` for `node`, overriding any earlier record.
    pub fn insert(&mut self, node: &str, id: String)
        ensures
            final(self).entries@.len() == old(self).entries@.len() + 1,
            final(self).entries@.skip(1) == old(self).entries@,
            first_attr(final(self).entries@, node@) matches Some(p) && p.0@ == node@ && p.1 == id,
            forall|k: Seq<char>|
                k != node@ ==> #[trigger] first_attr(final(self).entries@, k) == first_attr(
                    old(self).entries@,
                    k,
                ),
    {
        self.entries.insert(0, (node.to_owned(), id));
        proof {
            assert(final(self).entries@.skip(1) =~= old(self).entries@);
            assert(final(self).entries@[0].0@ == node@);
        }
    }
}

/// What registering a plan leaves behind: the store seeded with one empty
/// entry per node, the reference map filled from the actions that carry a
/// reference, and the nodes whose playlists are still missing.
pub struct RegisteredPlan {
    pub store: TrackStore,
    pub refs: NodeRefs,
    pub missing: Vec<String>,
}

/// Walks a plan once before executing it: every node gets a store entry;
/// a node whose actions carry a playlist reference has the reference's id
/// recorded; every other node is listed as missing its playlist, to be
/// created during the run and spliced into the produced description.
pub fn register_plan(plan: &Vec<Action>) -> (r: RegisteredPlan)
    ensures
        forall|i: int|
            0 <= i < plan@.len() ==> store_has(r.store.entries@, (#[trigger] plan@[i]).node@),
        forall|i: int|
            0 <= i < plan@.len() && (#[trigger] plan@[i]).playlist_url is Some
                ==> first_attr(r.refs.entries@, plan@[i].node@) is Some,
        forall|i: int|
            0 <= i < plan@.len() && (#[trigger] plan@[i]).playlist_url is None ==> has_id(
                r.missing@,
                plan@[i].node@,
            ),
{
    let n = plan.len();
    let mut store = TrackStore::new();
    let mut refs = NodeRefs::new();
    let mut missing: Vec<String> = Vec::new();
    let mut i: usize = 0;
    while i < n
        invariant
            i <= n,
            n == plan@.len(),
            forall|j: int|
                0 <= j < i ==> store_has(store.entries@, (#[trigger] plan@[j]).node@),
            forall|j: int|
                0 <= j < i && (#[trigger] plan@[j]).playlist_url is Some ==> first_attr(
                    refs.entries@,
                    plan@[j].node@,
                ) is Some,
            forall|j: int|
                0 <= j < i && (#[trigger] plan@[j]).playlist_url is None ==> has_id(
                    missing@,
                    plan@[j].node@,
                ),
        decreases n - i,
    {
        let ghost store_prev = store.entries@;
        let ghost refs_prev = refs.entries@;
        let ghost missing_prev = missing@;
        store.ensure_entry(plan[i].node.as_str());
        match &plan[i].playlist_url {
            Some(url) => {
                let id = last_segment(url.as_str(), '/');
                refs.insert(plan[i].node.as_str(), id);
            },
            None => {
                if !crate::tracks::contains_id(&missing, &plan[i].node) {
                    missing.push(plan[i].node.clone());
                }
            },
        }
        proof {
            assert forall|j: int| 0 <= j < i + 1 implies store_has(
                store.entries@,
                (#[trigger] plan@[j]).node@,
            ) by {
                if j < i {
                    assert(store_has(store_prev, plan@[j].node@));
                    let w = choose|x: int|
                        0 <= x < store_prev.len() && (#[trigger] store_prev[x].node@)
                            == plan@[j].node@;
                    assert(store.entries@.len() >= store_prev.len());
                    if store.entries@.len() > store_prev.len() {
                        assert(store.entries@.drop_last() == store_prev);
                        assert(store.entries@[w] == store_prev[w]);
                    } else {
                        assert(store.entries@ == store_prev);
                    }
                }
            }
            assert forall|j: int|
                0 <= j < i + 1 && (#[trigger] plan@[j]).playlist_url is Some implies first_attr(
                refs.entries@,
                plan@[j].node@,
            ) is Some by {
                if j < i {
                    if refs.entries@.len() > refs_prev.len() && plan@[j].node@
                        != refs.entries@[0].0@ {
                        assert(first_attr(refs.entries@, plan@[j].node@) == first_attr(
                            refs_prev,
                            plan@[j].node@,
                        ));
                    }
                }
            }
            assert forall|j: int|
                0 <= j < i + 1 && (#[trigger] plan@[j]).playlist_url is None implies has_id(
                missing@,
                plan@[j].node@,
            ) by {
                if j < i {
                    let w = choose|x: int|
                        0 <= x < missing_prev.len() && (#[trigger] missing_prev[x])@
                            == plan@[j].node@;
                    assert(missing@[w] == missing_prev[w]);
                } else {
                    if plan@[j].playlist_url is None {
                        if missing@.len() > missing_prev.len() {
                            assert(missing@.last()@ == plan@[j].node@);
                        } else {
                            assert(has_id(missing_prev, plan@[j].node@));
                            let w = choose|x: int|
                                0 <= x < missing_prev.len() && (#[trigger] missing_prev[x])@
                                    == plan@[j].node@;
                            assert(missing@[w] == missing_prev[w]);
                        }
                    }
                }
            }
        }
        i = i + 1;
    }
    RegisteredPlan { store, refs, missing }
}

/// Whether an action belongs to the synthetic root: such actions carry no
/// effect and the apply loop skips them.
pub fn is_root_action(a: &Action) -> (r: bool)
    ensures
        r == (a.for_node@ == "__mixify_root"@),
{
    str_eq(a.for_node.as_str(), "__mixify_root")
}

/// The names of the nodes contributing into `v`, in edge declaration order,
/// over the first `k` edges.
pub open spec fn contributor_names_upto(g: Graph, v: usize, k: int) -> Seq<String>
    decreases k,
{
    if k <= 0 {
        Seq::empty()
    } else if g.edges@[k - 1].to == v {
        contributor_names_upto(g, v, k - 1) + seq![
            g.nodes@[g.edges@[k - 1].from as int].name,
        ]
    } else {
        contributor_names_upto(g, v, k - 1)
    }
}

/// The names of all nodes contributing into `v`.
pub open spec fn contributor_names(g: Graph, v: usize) -> Seq<String> {
    contributor_names_upto(g, v, g.edges@.len() as int)
}

/// Collects the contributor names of `v`, in edge declaration order.
pub fn collect_contributor_names(g: &Graph, v: usize) -> (r: Vec<String>)
    requires
        g.wf(),
    ensures
        r@ == contributor_names(*g, v),
{
    let m = g.edges.len();
    let mut out: Vec<String> = Vec::new();
    let mut k: usize = 0;
    while k < m
        invariant
            k <= m,
            m == g.edges@.len(),
            g.wf(),
            out@ == contributor_names_upto(*g, v, k as int),
        decreases m - k,
    {
        if g.edges[k].to == v {
            out.push(g.nodes[g.edges[k].from].name.clone());
            proof {
                assert(out@ =~= contributor_names_upto(*g, v, k as int + 1));
            }
        }
        k = k + 1;
    }
    out
}

/// The description a created playlist carries, for traceability: the list
/// of its contributors.
pub fn playlist_description(contributors: &Vec<String>) -> (r: String)
    ensures
        r@ == "Generated mixstack using mixify. This playlist consists of: "@ + spec_join(
            contributors@,
            ", "@,
        ) + "."@,
{
    let mut out = String::new();
    out.append("Generated mixstack using mixify. This playlist consists of: ");
    let joined = crate::text::join_strings(contributors, ", ");
    out.append(joined.as_str());
    out.append(".");
    out
}

/// The name a created playlist carries: the node's display label when one
/// is declared, else the node identifier, with the tool's suffix appended.
pub fn playlist_title(name: &String, label: &Option<String>, suffix: &str) -> (r: String)
    ensures
        r@ == (match label {
            Some(l) => l@,
            None => name@,
        }) + suffix@,
{
    let mut out = match label {
        Some(l) => l.clone(),
        None => name.clone(),
    };
    out.append(suffix);
    out
}

/// The shard size for the bulk fetch: the playlist bodies are split among a
/// fixed number of concurrent workers, each taking a contiguous share, never
/// an empty one.
pub fn shard_size(len: usize, workers: usize) -> (r: usize)
    requires
        workers >= 1,
    ensures
        r == if len / workers == 0 {
            1usize
        } else {
            len / workers
        },
        r >= 1,
{
    let s = len / workers;
    if s == 0 {
        1
    } else {
        s
    }
}


/// The entry a fetched remote track contributes to a node's observed set:
/// local files stay out — they cannot be addressed remotely — as does a
/// track without id or without any credited artist.
pub open spec fn spec_observed_tuple(t: Track) -> Option<TrackTuple> {
    if t.is_local || t.id is None || t.artist_ids@.len() == 0 {
        None
    } else {
        Some(
            TrackTuple {
                id: t.id->Some_0,
                name: t.name,
                artist_id: t.artist_ids@[0],
                album_name: t.album_name,
            },
        )
    }
}

/// The observed entries of the first `k` fetched tracks, in order.
pub open spec fn observed_upto(tracks: Seq<Track>, k: int) -> Seq<TrackTuple>
    decreases k,
{
    if k <= 0 {
        Seq::empty()
    } else {
        observed_upto(tracks, k - 1) + (match spec_observed_tuple(tracks[k - 1]) {
            Some(t) => seq![t],
            None => Seq::empty(),
        })
    }
}

/// Turns a fetched remote listing into the node's observed entries,
/// filtering out local files and tracks the remote service cannot address.
pub fn observed_tuples(tracks: &Vec<Track>) -> (r: Vec<TrackTuple>)
    ensures
        r@ == observed_upto(tracks@, tracks@.len() as int),
{
    let n = tracks.len();
    let mut out: Vec<TrackTuple> = Vec::new();
    let mut i: usize = 0;
    while i < n
        invariant
            i <= n,
            n == tracks@.len(),
            out@ == observed_upto(tracks@, i as int),
        decreases n - i,
    {
        let t = &tracks[i];
        if !t.is_local && t.artist_ids.len() > 0 {
            match &t.id {
                Some(id) => {
                    out.push(
                        TrackTuple {
                            id: id.clone(),
                            name: t.name.clone(),
                            artist_id: t.artist_ids[0].clone(),
                            album_name: t.album_name.clone(),
                        },
                    );
                },
                None => {},
            }
        }
        proof {
            assert(out@ =~= observed_upto(tracks@, i as int + 1));
        }
        i = i + 1;
    }
    out
}


} // verus!
