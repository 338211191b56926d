//! Plan compiler: a recursive, post-order walk of the graph, depth-first over
//! incoming edges, that emits an ordered action list.
//!
//! Contributors of a node are fully planned before the node itself acts;
//! inclusion edges come before subtraction edges; a derived playlist is
//! created at most once per compilation, however many paths reach it. The
//! emission order of the list already encodes all dependency ordering; the
//! `idx` (depth) field only groups actions for diagnostics.
//!
//! A synthetic root node ties the declared forest into one rooted tree: it
//! stands behind index `nodes.len()`, receives an edge from every node
//! without outgoing edges, and its own actions are filtered out before
//! execution.

use vstd::prelude::*;

use crate::errors::Error;
use crate::graph::{EdgeInfo, Graph};
use crate::types::{Action, ActionType, QuerySongsByArtist};
use crate::validate::{spec_validate, validate_graph};

verus! {

/// Name under which the synthetic root appears in rendered actions.
pub const ROOT_NODE_NAME: &'static str = "__mixify_root";

/// What one plan step does; payloads are attached when steps are rendered
/// into [`Action`]s, since they are all functions of the node.
#[derive(Debug, Clone, Copy, PartialEq, Eq)]
pub enum StepKind {
    CreatePlaylist,
    QuerySongs,
    QuerySongsByArtist,
    SaveChanges,
    CopySongs,
    RemoveSongs,
}

/// One step of a compiled plan, over node indices; the synthetic root is
/// index `nodes.len()`.
#[derive(Debug, Clone, Copy, PartialEq, Eq)]
pub struct PlanStep {
    pub kind: StepKind,
    pub node: usize,
    pub for_node: usize,
    pub depth: usize,
}

/// Whether node `w` has no outgoing edge; such terminal nodes feed the
/// synthetic root.
pub open spec fn is_terminal(g: Graph, w: int) -> bool {
    forall|k: int| 0 <= k < g.edges@.len() ==> (#[trigger] g.edges@[k]).from != w
}

/// The terminal nodes among the first `k`, in index order.
pub open spec fn terminals_upto(g: Graph, k: int) -> Seq<usize>
    decreases k,
{
    if k <= 0 {
        Seq::empty()
    } else if is_terminal(g, k - 1) {
        terminals_upto(g, k - 1) + seq![(k - 1) as usize]
    } else {
        terminals_upto(g, k - 1)
    }
}

/// The sources of the first `k` edges into `v` whose subtract flag is
/// `sub`, in edge declaration order.
pub open spec fn edge_srcs_upto(edges: Seq<EdgeInfo>, v: usize, sub: bool, k: int) -> Seq<usize>
    decreases k,
{
    if k <= 0 {
        Seq::empty()
    } else if edges[k - 1].to == v && edges[k - 1].subtract == sub {
        edge_srcs_upto(edges, v, sub, k - 1) + seq![edges[k - 1].from]
    } else {
        edge_srcs_upto(edges, v, sub, k - 1)
    }
}

/// The inclusion contributors of `v`, in the order the plan recurses into
/// them. For the synthetic root these are the terminal nodes.
pub open spec fn incl_sources(g: Graph, v: usize) -> Seq<usize> {
    if v == g.nodes@.len() {
        terminals_upto(g, g.nodes@.len() as int)
    } else {
        edge_srcs_upto(g.edges@, v, false, g.edges@.len() as int)
    }
}

/// The subtraction contributors of `v`, in edge declaration order.
pub open spec fn sub_sources(g: Graph, v: usize) -> Seq<usize> {
    if v == g.nodes@.len() {
        Seq::empty()
    } else {
        edge_srcs_upto(g.edges@, v, true, g.edges@.len() as int)
    }
}

proof fn lemma_terminals_upto_bounds(g: Graph, k: int)
    requires
        k <= g.nodes@.len(),
    ensures
        forall|i: int|
            0 <= i < terminals_upto(g, k).len() ==> (#[trigger] terminals_upto(g, k)[i]) < g.nodes@.len(),
    decreases k,
{
    if k > 0 {
        lemma_terminals_upto_bounds(g, k - 1);
        let s = terminals_upto(g, k);
        let prev = terminals_upto(g, k - 1);
        assert forall|i: int| 0 <= i < s.len() implies (#[trigger] s[i]) < g.nodes@.len() by {
            if is_terminal(g, k - 1) {
                if i < prev.len() {
                    assert(s[i] == prev[i]);
                } else {
                    assert(s[i] == (k - 1) as usize);
                }
            } else {
                assert(s[i] == prev[i]);
            }
            assert(s[i] < g.nodes@.len());
        }
    }
}

proof fn lemma_edge_srcs_upto_bounds(g: Graph, v: usize, sub: bool, k: int)
    requires
        g.wf(),
        k <= g.edges@.len(),
    ensures
        forall|i: int|
            0 <= i < edge_srcs_upto(g.edges@, v, sub, k).len() ==> (
            #[trigger] edge_srcs_upto(g.edges@, v, sub, k)[i]) < g.nodes@.len(),
    decreases k,
{
    if k > 0 {
        lemma_edge_srcs_upto_bounds(g, v, sub, k - 1);
        let s = edge_srcs_upto(g.edges@, v, sub, k);
        let prev = edge_srcs_upto(g.edges@, v, sub, k - 1);
        assert(g.edges@[k - 1].from < g.nodes@.len());
        assert forall|i: int| 0 <= i < s.len() implies (#[trigger] s[i]) < g.nodes@.len() by {
            if g.edges@[k - 1].to == v && g.edges@[k - 1].subtract == sub {
                if i < prev.len() {
                    assert(s[i] == prev[i]);
                } else {
                    assert(s[i] == g.edges@[k - 1].from);
                }
            } else {
                assert(s[i] == prev[i]);
            }
        }
    }
}

/// Every contributor index points below the synthetic root.
pub proof fn lemma_sources_bounded(g: Graph, v: usize)
    requires
        g.wf(),
    ensures
        forall|i: int|
            0 <= i < incl_sources(g, v).len() ==> (#[trigger] incl_sources(g, v)[i]) < g.nodes@.len(),
        forall|i: int|
            0 <= i < sub_sources(g, v).len() ==> (#[trigger] sub_sources(g, v)[i]) < g.nodes@.len(),
{
    lemma_terminals_upto_bounds(g, g.nodes@.len() as int);
    lemma_edge_srcs_upto_bounds(g, v, false, g.edges@.len() as int);
    lemma_edge_srcs_upto_bounds(g, v, true, g.edges@.len() as int);
}

/// Whether `w` has an outgoing edge.
fn has_outgoing(g: &Graph, w: usize) -> (r: bool)
    ensures
        r == !is_terminal(*g, w as int),
{
    let m = g.edges.len();
    let mut k: usize = 0;
    while k < m
        invariant
            k <= m,
            m == g.edges@.len(),
            forall|j: int| 0 <= j < k ==> (#[trigger] g.edges@[j]).from != w,
        decreases m - k,
    {
        if g.edges[k].from == w {
            return true;
        }
        k = k + 1;
    }
    false
}

/// Collects the contributors of `v` with the given subtract flag, in edge
/// declaration order.
fn collect_edge_sources(g: &Graph, v: usize, sub: bool) -> (r: Vec<usize>)
    ensures
        r@ == edge_srcs_upto(g.edges@, v, sub, g.edges@.len() as int),
{
    let m = g.edges.len();
    let mut out: Vec<usize> = Vec::new();
    let mut k: usize = 0;
    while k < m
        invariant
            k <= m,
            m == g.edges@.len(),
            out@ == edge_srcs_upto(g.edges@, v, sub, k as int),
        decreases m - k,
    {
        if g.edges[k].to == v && g.edges[k].subtract == sub {
            out.push(g.edges[k].from);
            proof {
                assert(out@ =~= edge_srcs_upto(g.edges@, v, sub, k as int + 1));
            }
        }
        k = k + 1;
    }
    out
}

/// Collects the terminal nodes, in index order.
fn collect_terminals(g: &Graph) -> (r: Vec<usize>)
    ensures
        r@ == terminals_upto(*g, g.nodes@.len() as int),
{
    let n = g.nodes.len();
    let mut out: Vec<usize> = Vec::new();
    let mut k: usize = 0;
    while k < n
        invariant
            k <= n,
            n == g.nodes@.len(),
            out@ == terminals_upto(*g, k as int),
        decreases n - k,
    {
        if !has_outgoing(g, k) {
            out.push(k);
            proof {
                assert(out@ =~= terminals_upto(*g, k as int + 1));
            }
        }
        k = k + 1;
    }
    out
}

/// The contributors the plan recurses into, inclusion edges first.
fn collect_sources(g: &Graph, v: usize, sub: bool) -> (r: Vec<usize>)
    requires
        g.wf(),
        v <= g.nodes@.len(),
    ensures
        r@ == if sub {
            sub_sources(*g, v)
        } else {
            incl_sources(*g, v)
        },
        forall|i: int| 0 <= i < r@.len() ==> (#[trigger] r@[i]) < g.nodes@.len(),
{
    proof {
        lemma_sources_bounded(*g, v);
    }
    let out: Vec<usize> = if v == g.nodes.len() {
        if sub {
            Vec::new()
        } else {
            collect_terminals(g)
        }
    } else {
        collect_edge_sources(g, v, sub)
    };
    proof {
        if sub {
            assert(out@ =~= sub_sources(*g, v));
            assert forall|i: int| 0 <= i < out@.len() implies (#[trigger] out@[i])
                < g.nodes@.len() by {
                assert(out@[i] == sub_sources(*g, v)[i]);
            }
        } else {
            assert(out@ =~= incl_sources(*g, v));
            assert forall|i: int| 0 <= i < out@.len() implies (#[trigger] out@[i])
                < g.nodes@.len() by {
                assert(out@[i] == incl_sources(*g, v)[i]);
            }
        }
    }
    out
}

/// The playlist reference of a node; the synthetic root has none.
pub open spec fn node_url(g: Graph, v: usize) -> Option<String> {
    if v < g.nodes@.len() {
        g.nodes@[v as int].url
    } else {
        None
    }
}

/// The query parameters of a node; the synthetic root has none.
pub open spec fn node_query(g: Graph, v: usize) -> Option<QuerySongsByArtist> {
    if v < g.nodes@.len() {
        g.nodes@[v as int].query
    } else {
        None
    }
}

/// What happens once all of a node's contributors are planned: a leaf query
/// node queries by artist; a node with a reference refreshes observed state
/// and, if anything feeds it, saves; a node without one is created, at most
/// once per compilation, and saves. A leaf that is neither is rejected.
pub open spec fn plan_node_finish(
    g: Graph,
    v: usize,
    depth: usize,
    has_contrib: bool,
    acts: Seq<PlanStep>,
    finals: Seq<PlanStep>,
    memo: Seq<bool>,
) -> Result<(Seq<PlanStep>, Seq<bool>), Error> {
    let is_query_leaf = !has_contrib && node_query(g, v) is Some;
    if !has_contrib && node_query(g, v) is None && node_url(g, v) is None {
        if v < g.nodes@.len() {
            Err(Error::MissingPlaylistReference { node: g.nodes@[v as int].name })
        } else {
            Err(Error::GraphCycle)
        }
    } else {
        let finals1 = if is_query_leaf {
            finals.push(
                PlanStep { kind: StepKind::QuerySongsByArtist, node: v, for_node: v, depth },
            )
        } else {
            finals
        };
        if node_url(g, v) is Some {
            let finals2 = finals1.push(
                PlanStep { kind: StepKind::QuerySongs, node: v, for_node: v, depth },
            );
            let finals3 = if has_contrib || is_query_leaf {
                finals2.push(PlanStep { kind: StepKind::SaveChanges, node: v, for_node: v, depth })
            } else {
                finals2
            };
            Ok((acts + finals3, memo))
        } else {
            if v < memo.len() && memo[v as int] {
                Ok((acts + finals1, memo))
            } else {
                let acts1 = acts.push(
                    PlanStep { kind: StepKind::CreatePlaylist, node: v, for_node: v, depth },
                );
                let finals2 = finals1.push(
                    PlanStep { kind: StepKind::SaveChanges, node: v, for_node: v, depth },
                );
                Ok((acts1 + finals2, memo.update(v as int, true)))
            }
        }
    }
}

/// The full sub-plan of node `v` at recursion depth `depth`: contributors
/// first (inclusion, then subtraction), then the node's own final actions.
/// `memo` records which derived nodes earlier parts of the plan already
/// create; the fuel bounds recursion depth, so a contribution cycle is
/// reported instead of followed forever.
pub open spec fn plan_node(g: Graph, v: usize, depth: usize, memo: Seq<bool>, fuel: nat) -> Result<
    (Seq<PlanStep>, Seq<bool>),
    Error,
>
    decreases fuel, 1int, 0int,
{
    if fuel == 0 {
        Err(Error::GraphCycle)
    } else {
        let incl = incl_sources(g, v);
        let subs = sub_sources(g, v);
        let has_contrib = incl.len() + subs.len() > 0;
        match plan_children(
            g,
            incl,
            0,
            v,
            depth,
            StepKind::CopySongs,
            Seq::empty(),
            Seq::empty(),
            memo,
            fuel,
        ) {
            Err(e) => Err(e),
            Ok((acts1, finals1, memo1)) => match plan_children(
                g,
                subs,
                0,
                v,
                depth,
                StepKind::RemoveSongs,
                acts1,
                finals1,
                memo1,
                fuel,
            ) {
                Err(e) => Err(e),
                Ok((acts2, finals2, memo2)) => plan_node_finish(
                    g,
                    v,
                    depth,
                    has_contrib,
                    acts2,
                    finals2,
                    memo2,
                ),
            },
        }
    }
}

/// Plans the contributors `srcs[k..]` of `v` in order: each contributor's
/// full sub-plan is appended to `acts`, then one copy or remove step per
/// contributor is appended to `finals`, to run after all sub-plans.
pub open spec fn plan_children(
    g: Graph,
    srcs: Seq<usize>,
    k: int,
    v: usize,
    depth: usize,
    kind: StepKind,
    acts: Seq<PlanStep>,
    finals: Seq<PlanStep>,
    memo: Seq<bool>,
    fuel: nat,
) -> Result<(Seq<PlanStep>, Seq<PlanStep>, Seq<bool>), Error>
    decreases fuel, 0int, srcs.len() - k,
        when fuel >= 1 && k >= 0
{
    if k >= srcs.len() {
        Ok((acts, finals, memo))
    } else {
        match plan_node(g, srcs[k], (depth + 1) as usize, memo, (fuel - 1) as nat) {
            Err(e) => Err(e),
            Ok((sub, memo1)) => plan_children(
                g,
                srcs,
                k + 1,
                v,
                depth,
                kind,
                acts + sub,
                finals.push(PlanStep { kind, node: srcs[k], for_node: v, depth }),
                memo1,
                fuel,
            ),
        }
    }
}

/// Plans the contributors `srcs[k..]` of `v`, mirroring [`plan_children`].
fn compile_children(
    g: &Graph,
    srcs: &Vec<usize>,
    k: usize,
    v: usize,
    depth: usize,
    kind: StepKind,
    acts: &mut Vec<PlanStep>,
    finals: &mut Vec<PlanStep>,
    memo: &mut Vec<bool>,
    fuel: usize,
) -> (r: Result<(), Error>)
    requires
        g.wf(),
        v <= g.nodes@.len(),
        old(memo)@.len() == g.nodes@.len() + 1,
        forall|i: int| 0 <= i < srcs@.len() ==> (#[trigger] srcs@[i]) < g.nodes@.len(),
        fuel >= 1,
        depth + fuel <= usize::MAX,
        k <= srcs@.len(),
    ensures
        final(memo)@.len() == old(memo)@.len(),
        r matches Ok(u) ==> plan_children(
            *g,
            srcs@,
            k as int,
            v,
            depth,
            kind,
            old(acts)@,
            old(finals)@,
            old(memo)@,
            fuel as nat,
        ) == Ok::<_, Error>((final(acts)@, final(finals)@, final(memo)@)),
        r matches Err(e) ==> plan_children(
            *g,
            srcs@,
            k as int,
            v,
            depth,
            kind,
            old(acts)@,
            old(finals)@,
            old(memo)@,
            fuel as nat,
        ) == Err::<(Seq<PlanStep>, Seq<PlanStep>, Seq<bool>), _>(e),
    decreases fuel, 0int, srcs@.len() - k,
{
    if k == srcs.len() {
        return Ok(());
    }
    let src = srcs[k];
    match compile_node(g, src, depth + 1, memo, fuel - 1) {
        Err(e) => Err(e),
        Ok(mut sub) => {
            acts.append(&mut sub);
            finals.push(PlanStep { kind, node: src, for_node: v, depth });
            compile_children(g, srcs, k + 1, v, depth, kind, acts, finals, memo, fuel)
        },
    }
}

/// Compiles the full sub-plan of node `v`, mirroring [`plan_node`].
fn compile_node(g: &Graph, v: usize, depth: usize, memo: &mut Vec<bool>, fuel: usize) -> (r: Result<
    Vec<PlanStep>,
    Error,
>)
    requires
        g.wf(),
        v <= g.nodes@.len(),
        old(memo)@.len() == g.nodes@.len() + 1,
        depth + fuel <= usize::MAX,
    ensures
        final(memo)@.len() == old(memo)@.len(),
        r matches Ok(steps) ==> plan_node(*g, v, depth, old(memo)@, fuel as nat) == Ok::<
            _,
            Error,
        >((steps@, final(memo)@)),
        r matches Err(e) ==> plan_node(*g, v, depth, old(memo)@, fuel as nat) == Err::<
            (Seq<PlanStep>, Seq<bool>),
            _,
        >(e),
    decreases fuel, 1int, 0int,
{
    if fuel == 0 {
        return Err(Error::GraphCycle);
    }
    let incl = collect_sources(g, v, false);
    let subs = collect_sources(g, v, true);
    let has_contrib = incl.len() > 0 || subs.len() > 0;
    let mut acts: Vec<PlanStep> = Vec::new();
    let mut finals: Vec<PlanStep> = Vec::new();
    match compile_children(
        g,
        &incl,
        0,
        v,
        depth,
        StepKind::CopySongs,
        &mut acts,
        &mut finals,
        memo,
        fuel,
    ) {
        Err(e) => {
            return Err(e);
        },
        Ok(u) => {},
    }
    match compile_children(
        g,
        &subs,
        0,
        v,
        depth,
        StepKind::RemoveSongs,
        &mut acts,
        &mut finals,
        memo,
        fuel,
    ) {
        Err(e) => {
            return Err(e);
        },
        Ok(u) => {},
    }
    let has_query = if v < g.nodes.len() {
        g.nodes[v].query.is_some()
    } else {
        false
    };
    let has_url = if v < g.nodes.len() {
        g.nodes[v].url.is_some()
    } else {
        false
    };
    let is_query_leaf = !has_contrib && has_query;
    if !has_contrib && !has_query && !has_url {
        if v < g.nodes.len() {
            return Err(Error::MissingPlaylistReference { node: g.nodes[v].name.clone() });
        } else {
            return Err(Error::GraphCycle);
        }
    }
    if is_query_leaf {
        finals.push(PlanStep { kind: StepKind::QuerySongsByArtist, node: v, for_node: v, depth });
    }
    if has_url {
        finals.push(PlanStep { kind: StepKind::QuerySongs, node: v, for_node: v, depth });
        if has_contrib || is_query_leaf {
            finals.push(PlanStep { kind: StepKind::SaveChanges, node: v, for_node: v, depth });
        }
        acts.append(&mut finals);
        Ok(acts)
    } else {
        if memo[v] {
            acts.append(&mut finals);
            Ok(acts)
        } else {
            memo.set(v, true);
            acts.push(PlanStep { kind: StepKind::CreatePlaylist, node: v, for_node: v, depth });
            finals.push(PlanStep { kind: StepKind::SaveChanges, node: v, for_node: v, depth });
            acts.append(&mut finals);
            Ok(acts)
        }
    }
}

/// How many steps of `steps` create playlist `w`.
pub open spec fn creates_count(steps: Seq<PlanStep>, w: usize) -> nat
    decreases steps.len(),
{
    if steps.len() == 0 {
        0
    } else if steps.last().kind is CreatePlaylist && steps.last().node == w {
        creates_count(steps.drop_last(), w) + 1
    } else {
        creates_count(steps.drop_last(), w)
    }
}

proof fn lemma_creates_push(steps: Seq<PlanStep>, x: PlanStep, w: usize)
    ensures
        creates_count(steps.push(x), w) == creates_count(steps, w) + (
        if x.kind is CreatePlaylist && x.node == w {
            1nat
        } else {
            0nat
        }),
{
    assert(steps.push(x).drop_last() =~= steps);
    assert(steps.push(x).last() == x);
}

proof fn lemma_creates_concat(a: Seq<PlanStep>, b: Seq<PlanStep>, w: usize)
    ensures
        creates_count(a + b, w) == creates_count(a, w) + creates_count(b, w),
    decreases b.len(),
{
    if b.len() == 0 {
        assert(a + b =~= a);
    } else {
        lemma_creates_concat(a, b.drop_last(), w);
        assert((a + b).drop_last() =~= a + b.drop_last());
        assert((a + b).last() == b.last());
    }
}

proof fn lemma_creates_at_least_one(steps: Seq<PlanStep>, w: usize, i: int)
    requires
        0 <= i < steps.len(),
        steps[i].kind is CreatePlaylist,
        steps[i].node == w,
    ensures
        creates_count(steps, w) >= 1,
    decreases steps.len(),
{
    if i == steps.len() - 1 {
    } else {
        assert(steps.drop_last()[i] == steps[i]);
        lemma_creates_at_least_one(steps.drop_last(), w, i);
    }
}

proof fn lemma_creates_at_least_two(steps: Seq<PlanStep>, w: usize, i: int, j: int)
    requires
        0 <= i < j < steps.len(),
        steps[i].kind is CreatePlaylist,
        steps[i].node == w,
        steps[j].kind is CreatePlaylist,
        steps[j].node == w,
    ensures
        creates_count(steps, w) >= 2,
    decreases steps.len(),
{
    if j == steps.len() - 1 {
        assert(steps.drop_last()[i] == steps[i]);
        lemma_creates_at_least_one(steps.drop_last(), w, i);
    } else {
        assert(steps.drop_last()[i] == steps[i]);
        assert(steps.drop_last()[j] == steps[j]);
        lemma_creates_at_least_two(steps.drop_last(), w, i, j);
    }
}

/// A step is sound for `g` when its endpoints exist (the synthetic root
/// included) and an artist-query step sits on a node that carries query
/// parameters.
pub open spec fn step_sound(g: Graph, s: PlanStep) -> bool {
    &&& s.node <= g.nodes@.len()
    &&& s.for_node <= g.nodes@.len()
    &&& s.kind is QuerySongsByArtist ==> node_query(g, s.node) is Some
}

pub open spec fn steps_sound(g: Graph, steps: Seq<PlanStep>) -> bool {
    forall|i: int| 0 <= i < steps.len() ==> step_sound(g, #[trigger] steps[i])
}

/// What every successful sub-plan guarantees: the memo set only grows, every
/// step is sound, and each node is created at most once — never if the memo
/// already holds it — with the memo recording every creation.
proof fn lemma_plan_node_props(g: Graph, v: usize, depth: usize, memo: Seq<bool>, fuel: nat)
    requires
        g.wf(),
        v <= g.nodes@.len(),
        memo.len() == g.nodes@.len() + 1,
        plan_node(g, v, depth, memo, fuel) is Ok,
    ensures
        ({
            let (steps, memo1) = plan_node(g, v, depth, memo, fuel)->Ok_0;
            &&& memo1.len() == memo.len()
            &&& forall|t: int| 0 <= t < memo.len() && memo[t] ==> memo1[t]
            &&& steps_sound(g, steps)
            &&& forall|w: usize|
                w < memo.len() ==> #[trigger] creates_count(steps, w) <= if memo[w as int] {
                    0nat
                } else {
                    1nat
                }
            &&& forall|w: usize|
                w < memo.len() && #[trigger] creates_count(steps, w) >= 1 ==> memo1[w as int]
        }),
    decreases fuel, 1int, 0int,
{
    let incl = incl_sources(g, v);
    let subs = sub_sources(g, v);
    let has_contrib = incl.len() + subs.len() > 0;
    lemma_sources_bounded(g, v);
    let r1 = plan_children(
        g,
        incl,
        0,
        v,
        depth,
        StepKind::CopySongs,
        Seq::empty(),
        Seq::empty(),
        memo,
        fuel,
    );
    lemma_plan_children_props(
        g,
        incl,
        0,
        v,
        depth,
        StepKind::CopySongs,
        Seq::empty(),
        Seq::empty(),
        memo,
        fuel,
    );
    let (acts1, finals1, memo1) = r1->Ok_0;
    let r2 = plan_children(g, subs, 0, v, depth, StepKind::RemoveSongs, acts1, finals1, memo1, fuel);
    lemma_plan_children_props(
        g,
        subs,
        0,
        v,
        depth,
        StepKind::RemoveSongs,
        acts1,
        finals1,
        memo1,
        fuel,
    );
    let (acts2, finals2, memo2) = r2->Ok_0;
    let (steps, memo3) = plan_node_finish(g, v, depth, has_contrib, acts2, finals2, memo2)->Ok_0;
    let is_query_leaf = !has_contrib && node_query(g, v) is Some;
    let finals_q = if is_query_leaf {
        finals2.push(PlanStep { kind: StepKind::QuerySongsByArtist, node: v, for_node: v, depth })
    } else {
        finals2
    };
    assert forall|w: usize| w < memo.len() implies #[trigger] creates_count(finals_q, w)
        == creates_count(finals2, w) by {
        if is_query_leaf {
            lemma_creates_push(
                finals2,
                PlanStep { kind: StepKind::QuerySongsByArtist, node: v, for_node: v, depth },
                w,
            );
        }
    }
    if node_url(g, v) is Some {
        let q = finals_q.push(PlanStep { kind: StepKind::QuerySongs, node: v, for_node: v, depth });
        let q2 = if has_contrib || is_query_leaf {
            q.push(PlanStep { kind: StepKind::SaveChanges, node: v, for_node: v, depth })
        } else {
            q
        };
        assert(steps == acts2 + q2);
        assert forall|w: usize| w < memo.len() implies #[trigger] creates_count(steps, w)
            == creates_count(acts2, w) + creates_count(finals2, w) by {
            lemma_creates_push(
                finals_q,
                PlanStep { kind: StepKind::QuerySongs, node: v, for_node: v, depth },
                w,
            );
            if has_contrib || is_query_leaf {
                lemma_creates_push(
                    q,
                    PlanStep { kind: StepKind::SaveChanges, node: v, for_node: v, depth },
                    w,
                );
            }
            lemma_creates_concat(acts2, q2, w);
        }
    } else if v < memo2.len() && memo2[v as int] {
        assert(steps == acts2 + finals_q);
        assert forall|w: usize| w < memo.len() implies #[trigger] creates_count(steps, w)
            == creates_count(acts2, w) + creates_count(finals2, w) by {
            lemma_creates_concat(acts2, finals_q, w);
        }
    } else {
        let acts3 = acts2.push(
            PlanStep { kind: StepKind::CreatePlaylist, node: v, for_node: v, depth },
        );
        let q2 = finals_q.push(PlanStep { kind: StepKind::SaveChanges, node: v, for_node: v, depth });
        assert(steps == acts3 + q2);
        assert forall|w: usize| w < memo.len() implies #[trigger] creates_count(steps, w)
            == creates_count(acts2, w) + creates_count(finals2, w) + (
        if w == v {
            1nat
        } else {
            0nat
        }) by {
            lemma_creates_push(
                acts2,
                PlanStep { kind: StepKind::CreatePlaylist, node: v, for_node: v, depth },
                w,
            );
            lemma_creates_push(
                finals_q,
                PlanStep { kind: StepKind::SaveChanges, node: v, for_node: v, depth },
                w,
            );
            lemma_creates_concat(acts3, q2, w);
        }
        assert(!memo2[v as int]);
        assert(creates_count(acts2, v) + creates_count(finals2, v) == 0);
    }
}

/// The same guarantees for a run over the contributors `srcs[k..]`, stated
/// against the accumulators: counts only grow, by at most one per node not
/// yet in the memo, and never for a node already in it.
proof fn lemma_plan_children_props(
    g: Graph,
    srcs: Seq<usize>,
    k: int,
    v: usize,
    depth: usize,
    kind: StepKind,
    acts: Seq<PlanStep>,
    finals: Seq<PlanStep>,
    memo: Seq<bool>,
    fuel: nat,
)
    requires
        g.wf(),
        v <= g.nodes@.len(),
        memo.len() == g.nodes@.len() + 1,
        0 <= k <= srcs.len(),
        forall|i: int| 0 <= i < srcs.len() ==> (#[trigger] srcs[i]) < g.nodes@.len(),
        fuel >= 1,
        kind is CopySongs || kind is RemoveSongs,
        steps_sound(g, acts),
        steps_sound(g, finals),
        plan_children(g, srcs, k, v, depth, kind, acts, finals, memo, fuel) is Ok,
    ensures
        ({
            let (acts1, finals1, memo1) = plan_children(
                g,
                srcs,
                k,
                v,
                depth,
                kind,
                acts,
                finals,
                memo,
                fuel,
            )->Ok_0;
            &&& memo1.len() == memo.len()
            &&& forall|t: int| 0 <= t < memo.len() && memo[t] ==> memo1[t]
            &&& steps_sound(g, acts1)
            &&& steps_sound(g, finals1)
            &&& forall|w: usize|
                w < memo.len() ==> #[trigger] creates_count(acts1, w) + creates_count(finals1, w)
                    >= creates_count(acts, w) + creates_count(finals, w)
            &&& forall|w: usize|
                w < memo.len() ==> #[trigger] creates_count(acts1, w) + creates_count(finals1, w)
                    <= creates_count(acts, w) + creates_count(finals, w) + (
                if memo[w as int] {
                    0nat
                } else {
                    1nat
                })
            &&& forall|w: usize|
                w < memo.len() && memo[w as int] ==> #[trigger] creates_count(acts1, w)
                    + creates_count(finals1, w) == creates_count(acts, w) + creates_count(
                    finals,
                    w,
                )
            &&& forall|w: usize|
                w < memo.len() && #[trigger] creates_count(acts1, w) + creates_count(finals1, w)
                    > creates_count(acts, w) + creates_count(finals, w) ==> memo1[w as int]
        }),
    decreases fuel, 0int, srcs.len() - k,
{
    if k >= srcs.len() {
    } else {
        let sub_r = plan_node(g, srcs[k], (depth + 1) as usize, memo, (fuel - 1) as nat);
        let (sub, memo1) = sub_r->Ok_0;
        lemma_plan_node_props(g, srcs[k], (depth + 1) as usize, memo, (fuel - 1) as nat);
        let acts_n = acts + sub;
        let step = PlanStep { kind, node: srcs[k], for_node: v, depth };
        let finals_n = finals.push(step);
        assert(steps_sound(g, acts_n)) by {
            assert forall|i: int| 0 <= i < acts_n.len() implies step_sound(
                g,
                #[trigger] acts_n[i],
            ) by {
                if i < acts.len() {
                    assert(acts_n[i] == acts[i]);
                } else {
                    assert(acts_n[i] == sub[i - acts.len()]);
                }
            }
        }
        assert(steps_sound(g, finals_n)) by {
            assert forall|i: int| 0 <= i < finals_n.len() implies step_sound(
                g,
                #[trigger] finals_n[i],
            ) by {
                if i < finals.len() {
                    assert(finals_n[i] == finals[i]);
                }
            }
        }
        lemma_plan_children_props(g, srcs, k + 1, v, depth, kind, acts_n, finals_n, memo1, fuel);
        assert forall|w: usize| w < memo.len() implies #[trigger] creates_count(acts_n, w)
            + creates_count(finals_n, w) == creates_count(acts, w) + creates_count(finals, w)
            + creates_count(sub, w) by {
            lemma_creates_concat(acts, sub, w);
            lemma_creates_push(finals, step, w);
        }
    }
}


/// The name a step's node renders to; the synthetic root has a reserved one.
pub open spec fn node_name_view(g: Graph, v: usize) -> Seq<char> {
    if v < g.nodes@.len() {
        g.nodes@[v as int].name@
    } else {
        "__mixify_root"@
    }
}

/// How a rendered action reflects its plan step: names, depth and playlist
/// reference come from the step's node, and the payloads of query and save
/// actions repeat that node's reference or query parameters.
pub open spec fn action_matches_step(g: Graph, s: PlanStep, a: Action) -> bool {
    &&& a.node@ == node_name_view(g, s.node)
    &&& a.for_node@ == node_name_view(g, s.for_node)
    &&& a.idx == s.depth
    &&& a.playlist_url == node_url(g, s.node)
    &&& match s.kind {
        StepKind::CreatePlaylist => a.action_type == ActionType::CreatePlaylist,
        StepKind::QuerySongs => a.action_type == ActionType::QuerySongs(node_url(g, s.node)),
        StepKind::QuerySongsByArtist => a.action_type == ActionType::QuerySongsByArtist(
            node_query(g, s.node)->Some_0,
        ),
        StepKind::SaveChanges => a.action_type == ActionType::SaveChanges(node_url(g, s.node)),
        StepKind::CopySongs => a.action_type == ActionType::CopySongs,
        StepKind::RemoveSongs => a.action_type == ActionType::RemoveSongs,
    }
}

/// The name a node index renders to.
fn render_name(g: &Graph, v: usize) -> (r: String)
    requires
        v <= g.nodes@.len(),
    ensures
        r@ == node_name_view(*g, v),
{
    if v < g.nodes.len() {
        g.nodes[v].name.clone()
    } else {
        ROOT_NODE_NAME.to_owned()
    }
}

/// The playlist reference of a node, for attaching to a rendered action.
fn render_url(g: &Graph, v: usize) -> (r: Option<String>)
    requires
        v <= g.nodes@.len(),
    ensures
        r == node_url(*g, v),
{
    if v < g.nodes.len() {
        match &g.nodes[v].url {
            Some(u) => Some(u.clone()),
            None => None,
        }
    } else {
        None
    }
}

/// Renders one plan step into a user-facing action.
fn render_step(g: &Graph, s: &PlanStep) -> (a: Action)
    requires
        g.wf(),
        step_sound(*g, *s),
    ensures
        action_matches_step(*g, *s, a),
{
    let action_type = match s.kind {
        StepKind::CreatePlaylist => ActionType::CreatePlaylist,
        StepKind::QuerySongs => ActionType::QuerySongs(render_url(g, s.node)),
        StepKind::QuerySongsByArtist => {
            let q = match &g.nodes[s.node].query {
                Some(q) => q.clone(),
                None => {
                    proof {
                        assert(false);
                    }
                    QuerySongsByArtist {
                        artist_id: String::new(),
                        include_features: None,
                        source: None,
                        must_be_liked: None,
                    }
                },
            };
            ActionType::QuerySongsByArtist(q)
        },
        StepKind::SaveChanges => ActionType::SaveChanges(render_url(g, s.node)),
        StepKind::CopySongs => ActionType::CopySongs,
        StepKind::RemoveSongs => ActionType::RemoveSongs,
    };
    Action {
        action_type,
        node: render_name(g, s.node),
        for_node: render_name(g, s.for_node),
        idx: s.depth,
        playlist_url: render_url(g, s.node),
    }
}

/// Renders a compiled step list into the user-facing action list.
fn render_plan(g: &Graph, steps: &Vec<PlanStep>) -> (r: Vec<Action>)
    requires
        g.wf(),
        steps_sound(*g, steps@),
    ensures
        r@.len() == steps@.len(),
        forall|i: int|
            0 <= i < steps@.len() ==> action_matches_step(*g, steps@[i], #[trigger] r@[i]),
{
    let m = steps.len();
    let mut out: Vec<Action> = Vec::new();
    let mut k: usize = 0;
    while k < m
        invariant
            k <= m,
            m == steps@.len(),
            g.wf(),
            steps_sound(*g, steps@),
            out@.len() == k,
            forall|i: int|
                0 <= i < k ==> action_matches_step(*g, steps@[i], #[trigger] out@[i]),
        decreases m - k,
    {
        assert(step_sound(*g, steps@[k as int]));
        let a = render_step(g, &steps[k]);
        out.push(a);
        k = k + 1;
    }
    out
}

/// The memo all compilations start from: no playlist created yet.
pub open spec fn empty_memo(n: nat) -> Seq<bool> {
    Seq::new(n + 1, |i: int| false)
}

/// The plan of the whole graph: the synthetic root's sub-plan, with fuel
/// that any acyclic graph stays within.
pub open spec fn spec_execution_plan(g: Graph) -> Result<(Seq<PlanStep>, Seq<bool>), Error> {
    plan_node(
        g,
        g.nodes@.len() as usize,
        1,
        empty_memo(g.nodes@.len()),
        (g.nodes@.len() + 2) as nat,
    )
}

/// Compiles the graph into one ordered action list (wrapped in a one-element
/// outer list, one entry per compilation pass). Validation runs first, in
/// full; the list is then the rendering of [`spec_execution_plan`], and on
/// any graph whose contribution edges loop, the result is the cycle error.
/// Every derived node, the synthetic root included, is created at most
/// once, even in diamond-shaped graphs.
pub fn create_execution_plan(g: &Graph) -> (r: Result<Vec<Vec<Action>>, Error>)
    requires
        g.wf(),
        g.nodes@.len() + 3 <= usize::MAX,
    ensures
        r matches Ok(plans) ==> ({
            let pr = spec_execution_plan(*g);
            &&& spec_validate(*g) is Ok
            &&& pr is Ok
            &&& plans@.len() == 1
            &&& plans@[0]@.len() == pr->Ok_0.0.len()
            &&& forall|i: int|
                0 <= i < pr->Ok_0.0.len() ==> action_matches_step(
                    *g,
                    pr->Ok_0.0[i],
                    #[trigger] plans@[0]@[i],
                )
        }),
        r matches Err(e) ==> spec_validate(*g) == Err::<(), Error>(e) || (spec_validate(*g) is Ok
            && spec_execution_plan(*g) == Err::<(Seq<PlanStep>, Seq<bool>), _>(e)),
        r matches Ok(plans) ==> forall|i: int, j: int|
            0 <= i < j < plans@[0]@.len() && (#[trigger] plans@[0]@[i]).action_type
                == ActionType::CreatePlaylist && (#[trigger] plans@[0]@[j]).action_type
                == ActionType::CreatePlaylist ==> plans@[0]@[i].node@ != plans@[0]@[j].node@,
{
    match validate_graph(g) {
        Err(e) => {
            return Err(e);
        },
        Ok(u) => {},
    }
    let n = g.nodes.len();
    let mut memo: Vec<bool> = vec![false; n + 1];
    proof {
        assert(memo@ =~= empty_memo(g.nodes@.len()));
    }
    match compile_node(g, n, 1, &mut memo, n + 2) {
        Err(e) => Err(e),
        Ok(steps) => {
            proof {
                lemma_plan_node_props(*g, n, 1, empty_memo(g.nodes@.len()), (n + 2) as nat);
            }
            let actions = render_plan(g, &steps);
            proof {
                lemma_rendered_creates_unique(*g, steps@, actions@);
            }
            let mut plans: Vec<Vec<Action>> = Vec::new();
            plans.push(actions);
            Ok(plans)
        },
    }
}

/// Two distinct create actions of a sound, create-once step list can never
/// carry the same node name: distinct indices carry distinct names, the
/// reserved root name included.
proof fn lemma_rendered_creates_unique(g: Graph, steps: Seq<PlanStep>, actions: Seq<Action>)
    requires
        g.wf(),
        steps_sound(g, steps),
        actions.len() == steps.len(),
        forall|i: int|
            0 <= i < steps.len() ==> action_matches_step(g, steps[i], #[trigger] actions[i]),
        forall|w: usize|
            w < g.nodes@.len() + 1 ==> #[trigger] creates_count(steps, w) <= 1,
    ensures
        forall|i: int, j: int|
            0 <= i < j < actions.len() && (#[trigger] actions[i]).action_type
                == ActionType::CreatePlaylist && (#[trigger] actions[j]).action_type
                == ActionType::CreatePlaylist ==> actions[i].node@ != actions[j].node@,
{
    assert forall|i: int, j: int|
        0 <= i < j < actions.len() && (#[trigger] actions[i]).action_type
            == ActionType::CreatePlaylist && (#[trigger] actions[j]).action_type
            == ActionType::CreatePlaylist implies actions[i].node@ != actions[j].node@ by {
        let si = steps[i];
        let sj = steps[j];
        assert(si.kind is CreatePlaylist);
        assert(sj.kind is CreatePlaylist);
        if si.node == sj.node {
            lemma_creates_at_least_two(steps, si.node, i, j);
            assert(false);
        }
        assert(step_sound(g, si));
        assert(step_sound(g, sj));
    }
}


} // verus!
