//! Graph model: parsed statements, typed once into nodes with an explicit
//! attribute schema, and edges resolved to node indices.
//!
//! The indices into [`Graph::nodes`] act as opaque handles; a name is looked
//! up once while the graph is built, never re-scanned during planning.

use vstd::prelude::*;

use crate::errors::Error;
use crate::text::{lower_of, str_eq};
use crate::types::{QuerySongsByArtist, QuerySource};

verus! {

/// One statement of a parsed graph description.
pub enum Stmt {
    /// `name [key=value, ...];`
    NodeDecl { name: String, attrs: Vec<(String, String)> },
    /// `from -> to [key=value, ...];`
    Edge { from: String, to: String, attrs: Vec<(String, String)> },
}

/// A declared node with its attributes parsed into a typed schema.
#[derive(Debug)]
pub struct NodeInfo {
    pub name: String,
    /// External playlist reference, when the node already has one.
    pub url: Option<String>,
    /// Display name used when the playlist is created.
    pub label: Option<String>,
    /// Artist-query parameters; present iff the node is marked `type=query`.
    pub query: Option<QuerySongsByArtist>,
}

/// An edge, resolved to node indices. `subtract` flips its meaning from
/// "contribute into" to "remove from".
#[derive(Debug)]
pub struct EdgeInfo {
    pub from: usize,
    pub to: usize,
    pub subtract: bool,
}

/// The graph a plan is compiled from. Node names are unique and every edge
/// endpoint is a declared node.
#[derive(Debug)]
pub struct Graph {
    pub nodes: Vec<NodeInfo>,
    pub edges: Vec<EdgeInfo>,
}

impl Graph {
    /// Well-formedness: indices in range, names pairwise distinct.
    pub open spec fn wf(self) -> bool {
        &&& forall|k: int|
            0 <= k < self.edges@.len() ==> (#[trigger] self.edges@[k]).from < self.nodes@.len()
                && self.edges@[k].to < self.nodes@.len()
        &&& forall|i: int, j: int|
            0 <= i < j < self.nodes@.len() ==> (#[trigger] self.nodes@[i].name@) != (
            #[trigger] self.nodes@[j].name@)
        &&& forall|i: int|
            0 <= i < self.nodes@.len() ==> (#[trigger] self.nodes@[i].name@) != "__mixify_root"@
    }
}

/// The first pair bound to `key`: duplicate keys may occur in source text and
/// the first match wins.
pub open spec fn first_attr(attrs: Seq<(String, String)>, key: Seq<char>) -> Option<
    (String, String),
>
    decreases attrs.len(),
{
    if attrs.len() == 0 {
        None
    } else if attrs[0].0@ == key {
        Some(attrs[0])
    } else {
        first_attr(attrs.skip(1), key)
    }
}

/// The first value bound to `key`.
pub open spec fn attr_value(attrs: Seq<(String, String)>, key: Seq<char>) -> Option<String> {
    match first_attr(attrs, key) {
        Some(p) => Some(p.1),
        None => None,
    }
}

proof fn lemma_first_attr_step(attrs: Seq<(String, String)>, key: Seq<char>, i: int)
    requires
        0 <= i < attrs.len(),
        attrs[i].0@ != key,
    ensures
        first_attr(attrs.skip(i), key) == first_attr(attrs.skip(i + 1), key),
{
    assert(attrs.skip(i)[0] == attrs[i]);
    assert(attrs.skip(i).skip(1) =~= attrs.skip(i + 1));
}

/// Finds the first attribute pair with the given key.
pub fn get_attr(attrs: &Vec<(String, String)>, key: &str) -> (r: Option<(String, String)>)
    ensures
        r == first_attr(attrs@, key@),
{
    let n = attrs.len();
    let mut i: usize = 0;
    proof {
        assert(attrs@.skip(0) =~= attrs@);
    }
    while i < n
        invariant
            i <= n,
            n == attrs@.len(),
            first_attr(attrs@, key@) == first_attr(attrs@.skip(i as int), key@),
        decreases n - i,
    {
        if str_eq(attrs[i].0.as_str(), key) {
            proof {
                assert(attrs@.skip(i as int)[0] == attrs@[i as int]);
            }
            return Some((attrs[i].0.clone(), attrs[i].1.clone()));
        }
        proof {
            lemma_first_attr_step(attrs@, key@, i as int);
        }
        i = i + 1;
    }
    proof {
        assert(attrs@.skip(n as int) =~= Seq::<(String, String)>::empty());
    }
    None
}

/// The literal texts `true` / `false`; anything else has no reading.
pub open spec fn spec_bool_text(s: Seq<char>) -> Option<bool> {
    if s == "true"@ {
        Some(true)
    } else if s == "false"@ {
        Some(false)
    } else {
        None
    }
}

/// The source name a `source` attribute value denotes, ignoring letter case.
pub open spec fn spec_source_text(s: Seq<char>) -> Option<QuerySource> {
    if lower_of(s) == "liked"@ {
        Some(QuerySource::LikedSongs)
    } else if lower_of(s) == "playlists"@ {
        Some(QuerySource::Playlists)
    } else if lower_of(s) == "albums"@ {
        Some(QuerySource::Albums)
    } else {
        None
    }
}

/// The query parameters a query node's attributes denote, or the first
/// validation error, in the order the attributes are examined:
/// `must_be_liked`, then the mandatory `artist_id`, then `include_features`,
/// then `source`.
pub open spec fn spec_query_params(name: String, attrs: Seq<(String, String)>) -> Result<
    QuerySongsByArtist,
    Error,
> {
    let liked = first_attr(attrs, "must_be_liked"@);
    if liked matches Some(p) && spec_bool_text(p.1@) is None {
        Err(
            Error::BadBoolAttribute {
                node: name,
                key: liked->Some_0.0,
                raw: liked->Some_0.1,
            },
        )
    } else if attr_value(attrs, "artist_id"@) is None {
        Err(Error::MissingArtistId { node: name })
    } else {
        let feats = first_attr(attrs, "include_features"@);
        if feats matches Some(p) && spec_bool_text(p.1@) is None {
            Err(
                Error::BadBoolAttribute {
                    node: name,
                    key: feats->Some_0.0,
                    raw: feats->Some_0.1,
                },
            )
        } else {
            let source = first_attr(attrs, "source"@);
            if source matches Some(p) && spec_source_text(p.1@) is None {
                Err(Error::InvalidSource { node: name, raw: source->Some_0.1 })
            } else {
                Ok(
                    QuerySongsByArtist {
                        artist_id: attr_value(attrs, "artist_id"@)->Some_0,
                        include_features: match feats {
                            Some(p) => spec_bool_text(p.1@),
                            None => None,
                        },
                        source: match source {
                            Some(p) => spec_source_text(p.1@),
                            None => None,
                        },
                        must_be_liked: match liked {
                            Some(p) => spec_bool_text(p.1@),
                            None => None,
                        },
                    },
                )
            }
        }
    }
}

/// Whether the attributes mark a query node: the first `type` value is
/// `query`.
pub open spec fn spec_is_query(attrs: Seq<(String, String)>) -> bool {
    match attr_value(attrs, "type"@) {
        Some(t) => t@ == "query"@,
        None => false,
    }
}

/// The typed node a declaration denotes, or the first error in its query
/// attributes.
pub open spec fn spec_typed_node(name: String, attrs: Seq<(String, String)>) -> Result<
    NodeInfo,
    Error,
> {
    let url = attr_value(attrs, "URL"@);
    let label = attr_value(attrs, "label"@);
    if !spec_is_query(attrs) {
        Ok(NodeInfo { name, url, label, query: None })
    } else {
        match spec_query_params(name, attrs) {
            Ok(q) => Ok(NodeInfo { name, url, label, query: Some(q) }),
            Err(e) => Err(e),
        }
    }
}

/// Parses a boolean attribute value.
fn parse_bool_text(raw: &str) -> (r: Option<bool>)
    ensures
        r == spec_bool_text(raw@),
{
    crate::config::parse_bool_setting(raw)
}

/// Types one node declaration: scans the attribute bag once into the
/// explicit schema, validating the query attributes as it goes.
pub fn type_node(name: String, attrs: &Vec<(String, String)>) -> (r: Result<NodeInfo, Error>)
    ensures
        r == spec_typed_node(name, attrs@),
{
    let url = match get_attr(attrs, "URL") {
        Some(p) => Some(p.1),
        None => None,
    };
    let label = match get_attr(attrs, "label") {
        Some(p) => Some(p.1),
        None => None,
    };
    let is_query = match get_attr(attrs, "type") {
        Some(p) => str_eq(p.1.as_str(), "query"),
        None => false,
    };
    if !is_query {
        return Ok(NodeInfo { name, url, label, query: None });
    }
    let must_be_liked = match get_attr(attrs, "must_be_liked") {
        Some(p) => match parse_bool_text(p.1.as_str()) {
            Some(b) => Some(b),
            None => {
                return Err(Error::BadBoolAttribute { node: name, key: p.0, raw: p.1 });
            },
        },
        None => None,
    };
    let artist_id = match get_attr(attrs, "artist_id") {
        Some(p) => p.1,
        None => {
            return Err(Error::MissingArtistId { node: name });
        },
    };
    let include_features = match get_attr(attrs, "include_features") {
        Some(p) => match parse_bool_text(p.1.as_str()) {
            Some(b) => Some(b),
            None => {
                return Err(Error::BadBoolAttribute { node: name, key: p.0, raw: p.1 });
            },
        },
        None => None,
    };
    let source = match get_attr(attrs, "source") {
        Some(p) => match QuerySource::from_str(p.1.as_str()) {
            Some(s) => Some(s),
            None => {
                return Err(Error::InvalidSource { node: name, raw: p.1 });
            },
        },
        None => None,
    };
    Ok(
        NodeInfo {
            name,
            url,
            label,
            query: Some(
                QuerySongsByArtist { artist_id, include_features, source, must_be_liked },
            ),
        },
    )
}

/// Whether some node of `nodes` carries `name`.
pub open spec fn contains_name(nodes: Seq<NodeInfo>, name: Seq<char>) -> bool {
    exists|i: int| 0 <= i < nodes.len() && (#[trigger] nodes[i].name@) == name
}

/// The first index carrying `name`.
pub open spec fn spec_find_node(nodes: Seq<NodeInfo>, name: Seq<char>) -> Option<int>
    decreases nodes.len(),
{
    if nodes.len() == 0 {
        None
    } else if nodes[0].name@ == name {
        Some(0int)
    } else {
        match spec_find_node(nodes.skip(1), name) {
            Some(i) => Some(i + 1),
            None => None,
        }
    }
}

pub proof fn lemma_find_node_props(nodes: Seq<NodeInfo>, name: Seq<char>)
    ensures
        spec_find_node(nodes, name) matches Some(i) ==> 0 <= i < nodes.len() && nodes[i].name@
            == name,
        spec_find_node(nodes, name) is None <==> !contains_name(nodes, name),
    decreases nodes.len(),
{
    if nodes.len() == 0 {
    } else {
        lemma_find_node_props(nodes.skip(1), name);
        if nodes[0].name@ == name {
        } else {
            assert forall|j: int| 1 <= j < nodes.len() implies nodes[j] == nodes.skip(1)[j
                - 1] by {}
            if contains_name(nodes, name) {
                let w = choose|i: int|
                    0 <= i < nodes.len() && (#[trigger] nodes[i].name@) == name;
                assert(nodes.skip(1)[w - 1].name@ == name);
                assert(contains_name(nodes.skip(1), name));
            }
            if contains_name(nodes.skip(1), name) {
                let w = choose|i: int|
                    0 <= i < nodes.skip(1).len() && (#[trigger] nodes.skip(1)[i].name@) == name;
                assert(nodes[w + 1].name@ == name);
            }
        }
    }
}

/// Finds the first node carrying `name`.
pub fn find_node(nodes: &Vec<NodeInfo>, name: &str) -> (r: Option<usize>)
    ensures
        r matches Some(u) ==> spec_find_node(nodes@, name@) == Some(u as int),
        r is None <==> spec_find_node(nodes@, name@) is None,
{
    let n = nodes.len();
    let mut i: usize = 0;
    while i < n
        invariant
            i <= n,
            n == nodes@.len(),
            forall|j: int| 0 <= j < i ==> (#[trigger] nodes@[j].name@) != name@,
        decreases n - i,
    {
        if str_eq(nodes[i].name.as_str(), name) {
            proof {
                lemma_find_node_least(nodes@, name@, i as int);
            }
            return Some(i);
        }
        i = i + 1;
    }
    proof {
        lemma_find_node_props(nodes@, name@);
        if contains_name(nodes@, name@) {
            let w = choose|k: int|
                0 <= k < nodes@.len() && (#[trigger] nodes@[k].name@) == name@;
        }
    }
    None
}

proof fn lemma_find_node_least(nodes: Seq<NodeInfo>, name: Seq<char>, i: int)
    requires
        0 <= i < nodes.len(),
        nodes[i].name@ == name,
        forall|j: int| 0 <= j < i ==> (#[trigger] nodes[j].name@) != name,
    ensures
        spec_find_node(nodes, name) == Some(i),
    decreases i,
{
    if i == 0 {
    } else {
        assert forall|j: int| 0 <= j < i - 1 implies (#[trigger] nodes.skip(1)[j].name@)
            != name by {
            assert(nodes.skip(1)[j] == nodes[j + 1]);
        }
        assert(nodes.skip(1)[i - 1] == nodes[i]);
        lemma_find_node_least(nodes.skip(1), name, i - 1);
    }
}

/// Whether an edge's attributes flip it to subtraction.
pub open spec fn spec_edge_subtract(attrs: Seq<(String, String)>) -> bool {
    match attr_value(attrs, "subtract"@) {
        Some(v) => v@ == "true"@,
        None => false,
    }
}

/// The nodes the statements declare, in declaration order, or the first
/// error: a duplicate declaration or a malformed query attribute.
pub open spec fn spec_build_nodes(stmts: Seq<Stmt>, acc: Seq<NodeInfo>) -> Result<
    Seq<NodeInfo>,
    Error,
>
    decreases stmts.len(),
{
    if stmts.len() == 0 {
        Ok(acc)
    } else {
        match stmts[0] {
            Stmt::NodeDecl { name, attrs } => {
                if name@ == "__mixify_root"@ {
                    Err(Error::ReservedNodeName { name })
                } else if contains_name(acc, name@) {
                    Err(Error::DuplicateNode { name })
                } else {
                    match spec_typed_node(name, attrs@) {
                        Ok(n) => spec_build_nodes(stmts.skip(1), acc.push(n)),
                        Err(e) => Err(e),
                    }
                }
            },
            _ => spec_build_nodes(stmts.skip(1), acc),
        }
    }
}

/// The edges the statements declare, resolved against `nodes`, in
/// declaration order, or the first endpoint that no statement declares.
pub open spec fn spec_build_edges(
    stmts: Seq<Stmt>,
    nodes: Seq<NodeInfo>,
    acc: Seq<EdgeInfo>,
) -> Result<Seq<EdgeInfo>, Error>
    decreases stmts.len(),
{
    if stmts.len() == 0 {
        Ok(acc)
    } else {
        match stmts[0] {
            Stmt::Edge { from, to, attrs } => {
                if spec_find_node(nodes, from@) is None {
                    Err(Error::UngraphedNode { name: from })
                } else if spec_find_node(nodes, to@) is None {
                    Err(Error::UngraphedNode { name: to })
                } else {
                    let e = EdgeInfo {
                        from: spec_find_node(nodes, from@)->Some_0 as usize,
                        to: spec_find_node(nodes, to@)->Some_0 as usize,
                        subtract: spec_edge_subtract(attrs@),
                    };
                    spec_build_edges(stmts.skip(1), nodes, acc.push(e))
                }
            },
            _ => spec_build_edges(stmts.skip(1), nodes, acc),
        }
    }
}

/// Builds the graph model from parsed statements: nodes typed once, every
/// edge endpoint resolved to a declared node. Fails fast on the first
/// violation, before any planning or remote work.
pub fn build_graph(stmts: &Vec<Stmt>) -> (r: Result<Graph, Error>)
    ensures
        r matches Ok(g) ==> {
            &&& spec_build_nodes(stmts@, Seq::empty()) == Ok::<_, Error>(g.nodes@)
            &&& spec_build_edges(stmts@, g.nodes@, Seq::empty()) == Ok::<_, Error>(g.edges@)
            &&& g.wf()
        },
        r matches Err(e) ==> {
            ||| spec_build_nodes(stmts@, Seq::empty()) == Err::<Seq<NodeInfo>, _>(e)
            ||| (spec_build_nodes(stmts@, Seq::empty()) matches Ok(ns) && spec_build_edges(
                stmts@,
                ns,
                Seq::empty(),
            ) == Err::<Seq<EdgeInfo>, _>(e))
        },
        (r is Ok) == (spec_build_nodes(stmts@, Seq::empty()) matches Ok(ns) && spec_build_edges(
            stmts@,
            ns,
            Seq::empty(),
        ) is Ok),
{
    let n = stmts.len();
    let mut nodes: Vec<NodeInfo> = Vec::new();
    let mut i: usize = 0;
    proof {
        assert(stmts@.skip(0) =~= stmts@);
    }
    while i < n
        invariant
            i <= n,
            n == stmts@.len(),
            spec_build_nodes(stmts@, Seq::empty()) == spec_build_nodes(
                stmts@.skip(i as int),
                nodes@,
            ),
            forall|a: int, b: int|
                0 <= a < b < nodes@.len() ==> (#[trigger] nodes@[a].name@) != (
                #[trigger] nodes@[b].name@),
            forall|a: int|
                0 <= a < nodes@.len() ==> (#[trigger] nodes@[a].name@) != "__mixify_root"@,
        decreases n - i,
    {
        proof {
            assert(stmts@.skip(i as int)[0] == stmts@[i as int]);
            assert(stmts@.skip(i as int).skip(1) =~= stmts@.skip(i as int + 1));
        }
        match &stmts[i] {
            Stmt::NodeDecl { name, attrs } => {
                if str_eq(name.as_str(), "__mixify_root") {
                    return Err(Error::ReservedNodeName { name: name.clone() });
                }
                match find_node(&nodes, name.as_str()) {
                    Some(_) => {
                        proof {
                            lemma_find_node_props(nodes@, name@);
                        }
                        return Err(Error::DuplicateNode { name: name.clone() });
                    },
                    None => {
                        proof {
                            lemma_find_node_props(nodes@, name@);
                        }
                        match type_node(name.clone(), attrs) {
                            Ok(info) => {
                                nodes.push(info);
                            },
                            Err(e) => {
                                return Err(e);
                            },
                        }
                    },
                }
            },
            Stmt::Edge { .. } => {},
        }
        i = i + 1;
    }
    proof {
        assert(stmts@.skip(n as int) =~= Seq::<Stmt>::empty());
    }
    let mut edges: Vec<EdgeInfo> = Vec::new();
    let mut j: usize = 0;
    proof {
        assert(stmts@.skip(0) =~= stmts@);
    }
    while j < n
        invariant
            j <= n,
            n == stmts@.len(),
            spec_build_nodes(stmts@, Seq::empty()) == Ok::<_, Error>(nodes@),
            spec_build_edges(stmts@, nodes@, Seq::empty()) == spec_build_edges(
                stmts@.skip(j as int),
                nodes@,
                edges@,
            ),
            forall|k: int|
                0 <= k < edges@.len() ==> (#[trigger] edges@[k]).from < nodes@.len()
                    && edges@[k].to < nodes@.len(),
            forall|a: int, b: int|
                0 <= a < b < nodes@.len() ==> (#[trigger] nodes@[a].name@) != (
                #[trigger] nodes@[b].name@),
            forall|a: int|
                0 <= a < nodes@.len() ==> (#[trigger] nodes@[a].name@) != "__mixify_root"@,
        decreases n - j,
    {
        proof {
            assert(stmts@.skip(j as int)[0] == stmts@[j as int]);
            assert(stmts@.skip(j as int).skip(1) =~= stmts@.skip(j as int + 1));
        }
        match &stmts[j] {
            Stmt::Edge { from, to, attrs } => {
                let from_idx = match find_node(&nodes, from.as_str()) {
                    Some(u) => u,
                    None => {
                        return Err(Error::UngraphedNode { name: from.clone() });
                    },
                };
                let to_idx = match find_node(&nodes, to.as_str()) {
                    Some(u) => u,
                    None => {
                        return Err(Error::UngraphedNode { name: to.clone() });
                    },
                };
                proof {
                    lemma_find_node_props(nodes@, from@);
                    lemma_find_node_props(nodes@, to@);
                }
                let subtract = match get_attr(attrs, "subtract") {
                    Some(p) => str_eq(p.1.as_str(), "true"),
                    None => false,
                };
                edges.push(EdgeInfo { from: from_idx, to: to_idx, subtract });
            },
            Stmt::NodeDecl { .. } => {},
        }
        j = j + 1;
    }
    proof {
        assert(stmts@.skip(n as int) =~= Seq::<Stmt>::empty());
    }
    Ok(Graph { nodes, edges })
}

} // verus!
