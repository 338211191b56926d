//! Graph Validator: structural checks that run once, fully, before any
//! planning or remote work — fail fast, no partial graphs.
//!
//! Unresolved edge endpoints and duplicate declarations are already rejected
//! while the graph is built; this pass checks the base nodes: a node with
//! outgoing edges and no incoming ones must either be a query node or carry
//! a playlist reference, and a carried reference must parse as an absolute
//! URL.

use vstd::prelude::*;

use crate::errors::Error;
use crate::graph::Graph;
use crate::plan::is_terminal;

verus! {

/// Whether the text parses as an absolute URL.
pub uninterp spec fn is_absolute_url(s: Seq<char>) -> bool;

/// Relies on url::Url::parse: whether the text parses as an absolute URL.
/// The result is a function of the characters alone.
#[verifier::external_body]
fn parse_url_ok(s: &str) -> (r: bool)
    ensures
        r == is_absolute_url(s@),
{
    url::Url::parse(s).is_ok()
}

/// Whether no edge points into `w`.
pub open spec fn has_no_incoming(g: Graph, w: int) -> bool {
    forall|k: int| 0 <= k < g.edges@.len() ==> (#[trigger] g.edges@[k]).to != w
}

/// A base node: no incoming edges, at least one outgoing edge.
pub open spec fn is_base_node(g: Graph, w: int) -> bool {
    has_no_incoming(g, w) && !is_terminal(g, w)
}

/// The validation verdict over the first `k` nodes, in index order: the
/// first base node without reference and query marker, or with a reference
/// that is no absolute URL, decides.
pub open spec fn spec_validate_upto(g: Graph, k: int) -> Result<(), Error>
    decreases k,
{
    if k <= 0 {
        Ok(())
    } else {
        match spec_validate_upto(g, k - 1) {
            Err(e) => Err(e),
            Ok(u) => {
                let node = g.nodes@[k - 1];
                if is_base_node(g, k - 1) {
                    if node.url is None {
                        if node.query is None {
                            Err(Error::MissingPlaylistReference { node: node.name })
                        } else {
                            Ok(())
                        }
                    } else if !is_absolute_url(node.url->Some_0@) {
                        Err(Error::InvalidReference { node: node.name, raw: node.url->Some_0 })
                    } else {
                        Ok(())
                    }
                } else {
                    Ok(())
                }
            },
        }
    }
}

/// The validation verdict for the whole graph.
pub open spec fn spec_validate(g: Graph) -> Result<(), Error> {
    spec_validate_upto(g, g.nodes@.len() as int)
}

proof fn lemma_validate_err_persists(g: Graph, k: int, m: int)
    requires
        0 <= k <= m,
        spec_validate_upto(g, k) is Err,
    ensures
        spec_validate_upto(g, m) == spec_validate_upto(g, k),
    decreases m - k,
{
    if m > k {
        lemma_validate_err_persists(g, k, m - 1);
    }
}

/// Whether some edge points into `w`.
fn has_incoming_edge(g: &Graph, w: usize) -> (r: bool)
    ensures
        r == !has_no_incoming(*g, w as int),
{
    let m = g.edges.len();
    let mut k: usize = 0;
    while k < m
        invariant
            k <= m,
            m == g.edges@.len(),
            forall|j: int| 0 <= j < k ==> (#[trigger] g.edges@[j]).to != w,
        decreases m - k,
    {
        if g.edges[k].to == w {
            return true;
        }
        k = k + 1;
    }
    false
}

/// Whether some edge leaves `w`.
fn has_outgoing_edge(g: &Graph, w: usize) -> (r: bool)
    ensures
        r == !is_terminal(*g, w as int),
{
    let m = g.edges.len();
    let mut k: usize = 0;
    while k < m
        invariant
            k <= m,
            m == g.edges@.len(),
            forall|j: int| 0 <= j < k ==> (#[trigger] g.edges@[j]).from != w,
        decreases m - k,
    {
        if g.edges[k].from == w {
            return true;
        }
        k = k + 1;
    }
    false
}

/// Checks every base node: a missing reference on a non-query base node and
/// a reference that does not parse as an absolute URL are hard errors,
/// reported with the node concerned, before any planning work.
pub fn validate_graph(g: &Graph) -> (r: Result<(), Error>)
    ensures
        r == spec_validate(*g),
{
    let n = g.nodes.len();
    let mut i: usize = 0;
    while i < n
        invariant
            i <= n,
            n == g.nodes@.len(),
            spec_validate_upto(*g, i as int) == Ok::<(), Error>(()),
        decreases n - i,
    {
        if !has_incoming_edge(g, i) && has_outgoing_edge(g, i) {
            match &g.nodes[i].url {
                None => {
                    if g.nodes[i].query.is_none() {
                        proof {
                            lemma_validate_err_persists(*g, i as int + 1, n as int);
                        }
                        return Err(
                            Error::MissingPlaylistReference { node: g.nodes[i].name.clone() },
                        );
                    }
                },
                Some(u) => {
                    if !parse_url_ok(u.as_str()) {
                        proof {
                            lemma_validate_err_persists(*g, i as int + 1, n as int);
                        }
                        return Err(
                            Error::InvalidReference {
                                node: g.nodes[i].name.clone(),
                                raw: u.clone(),
                            },
                        );
                    }
                },
            }
        }
        i = i + 1;
    }
    Ok(())
}

} // verus!
