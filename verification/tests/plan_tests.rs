use mixify::graph::{build_graph, Stmt};
use mixify::types::{Action, ActionType};

fn node(name: &str, attrs: &[(&str, &str)]) -> Stmt {
    Stmt::NodeDecl {
        name: name.to_string(),
        attrs: attrs.iter().map(|(k, v)| (k.to_string(), v.to_string())).collect(),
    }
}

fn edge(from: &str, to: &str, attrs: &[(&str, &str)]) -> Stmt {
    Stmt::Edge {
        from: from.to_string(),
        to: to.to_string(),
        attrs: attrs.iter().map(|(k, v)| (k.to_string(), v.to_string())).collect(),
    }
}

fn compile(stmts: Vec<Stmt>) -> Vec<Action> {
    let g = build_graph(&stmts).expect("graph should build");
    let mut plans = mixify::plan::create_execution_plan(&g).expect("plan should compile");
    assert_eq!(plans.len(), 1);
    plans.pop().unwrap()
}

fn effective(plan: Vec<Action>) -> Vec<Action> {
    plan.into_iter().filter(|a| !mixify::executor::is_root_action(a)).collect()
}

#[test]
fn two_sources_compile_in_dependency_order() {
    let u1 = "https://open.spotify.com/playlist/aaaaaaaaaaaaaaaaaaaaa1";
    let u2 = "https://open.spotify.com/playlist/aaaaaaaaaaaaaaaaaaaaa2";
    let plan = effective(compile(vec![
        node("A", &[("URL", u1)]),
        node("B", &[("URL", u2)]),
        node("C", &[]),
        edge("A", "C", &[]),
        edge("B", "C", &[]),
    ]));
    let kinds: Vec<(String, String, &ActionType)> =
        plan.iter().map(|a| (a.node.clone(), a.for_node.clone(), &a.action_type)).collect();
    assert_eq!(plan.len(), 6);
    assert_eq!(kinds[0].0, "A");
    assert!(matches!(kinds[0].2, ActionType::QuerySongs(Some(u)) if u == u1));
    assert_eq!(kinds[1].0, "B");
    assert!(matches!(kinds[1].2, ActionType::QuerySongs(Some(u)) if u == u2));
    assert_eq!(kinds[2].0, "C");
    assert!(matches!(kinds[2].2, ActionType::CreatePlaylist));
    assert_eq!((kinds[3].0.as_str(), kinds[3].1.as_str()), ("A", "C"));
    assert!(matches!(kinds[3].2, ActionType::CopySongs));
    assert_eq!((kinds[4].0.as_str(), kinds[4].1.as_str()), ("B", "C"));
    assert!(matches!(kinds[4].2, ActionType::CopySongs));
    assert_eq!(kinds[5].0, "C");
    assert!(matches!(kinds[5].2, ActionType::SaveChanges(None)));

    // Both query actions precede both copy actions, and the create precedes
    // the save.
    let pos = |pred: &dyn Fn(&Action) -> bool| plan.iter().position(|a| pred(a)).unwrap();
    let qa = pos(&|a| matches!(a.action_type, ActionType::QuerySongs(_)) && a.node == "A");
    let qb = pos(&|a| matches!(a.action_type, ActionType::QuerySongs(_)) && a.node == "B");
    let ca = pos(&|a| matches!(a.action_type, ActionType::CopySongs) && a.node == "A");
    let cb = pos(&|a| matches!(a.action_type, ActionType::CopySongs) && a.node == "B");
    let cr = pos(&|a| matches!(a.action_type, ActionType::CreatePlaylist));
    let sv = pos(&|a| matches!(a.action_type, ActionType::SaveChanges(_)) && a.node == "C");
    assert!(qa < ca && qa < cb && qb < ca && qb < cb);
    assert!(cr < sv);
}

#[test]
fn subtract_edge_compiles_to_remove() {
    let ua = "https://open.spotify.com/playlist/aaaaaaaaaaaaaaaaaaaaaa";
    let ub = "https://open.spotify.com/playlist/bbbbbbbbbbbbbbbbbbbbbb";
    let plan = effective(compile(vec![
        node("A", &[("URL", ua)]),
        node("B", &[("URL", ub)]),
        edge("A", "B", &[("subtract", "true")]),
    ]));
    assert_eq!(plan.len(), 4);
    assert!(matches!(&plan[0].action_type, ActionType::QuerySongs(Some(u)) if u == ua));
    assert_eq!(plan[0].node, "A");
    assert!(matches!(plan[1].action_type, ActionType::RemoveSongs));
    assert_eq!((plan[1].node.as_str(), plan[1].for_node.as_str()), ("A", "B"));
    assert!(matches!(&plan[2].action_type, ActionType::QuerySongs(Some(u)) if u == ub));
    assert_eq!(plan[2].node, "B");
    assert!(matches!(&plan[3].action_type, ActionType::SaveChanges(Some(u)) if u == ub));
    assert_eq!(plan[3].node, "B");
}

#[test]
fn diamond_creates_each_node_once() {
    let u = "https://open.spotify.com/playlist/cccccccccccccccccccccc";
    // A feeds both Left and Right, which both feed Bottom: the shared sink
    // Bottom and the intermediates are each created exactly once.
    let plan = compile(vec![
        node("A", &[("URL", u)]),
        node("Left", &[]),
        node("Right", &[]),
        node("Bottom", &[]),
        edge("A", "Left", &[]),
        edge("A", "Right", &[]),
        edge("Left", "Bottom", &[]),
        edge("Right", "Bottom", &[]),
    ]);
    let mut created: Vec<String> = plan
        .iter()
        .filter(|a| matches!(a.action_type, ActionType::CreatePlaylist))
        .map(|a| a.node.clone())
        .collect();
    let total = created.len();
    created.sort();
    created.dedup();
    assert_eq!(total, created.len(), "some node was created twice");
    assert!(created.contains(&"Left".to_string()));
    assert!(created.contains(&"Right".to_string()));
    assert!(created.contains(&"Bottom".to_string()));
}

#[test]
fn inclusion_copies_precede_subtraction_removes() {
    let u = "https://open.spotify.com/playlist/dddddddddddddddddddddd";
    let plan = effective(compile(vec![
        node("Keep", &[("URL", u)]),
        node("Drop", &[("URL", u)]),
        node("Out", &[]),
        edge("Drop", "Out", &[("subtract", "true")]),
        edge("Keep", "Out", &[]),
    ]));
    let copy = plan
        .iter()
        .position(|a| matches!(a.action_type, ActionType::CopySongs))
        .unwrap();
    let remove = plan
        .iter()
        .position(|a| matches!(a.action_type, ActionType::RemoveSongs))
        .unwrap();
    assert!(copy < remove);
}

#[test]
fn cyclic_graph_is_rejected() {
    let u = "https://open.spotify.com/playlist/eeeeeeeeeeeeeeeeeeeeee";
    // X and Y feed each other; Y also feeds a terminal so the cycle is
    // reachable from the synthetic root.
    let stmts = vec![
        node("X", &[("URL", u)]),
        node("Y", &[("URL", u)]),
        node("End", &[]),
        edge("X", "Y", &[]),
        edge("Y", "X", &[]),
        edge("Y", "End", &[]),
    ];
    let g = build_graph(&stmts).expect("graph should build");
    let r = mixify::plan::create_execution_plan(&g);
    assert_eq!(r.unwrap_err(), mixify::Error::GraphCycle);
}

#[test]
fn query_node_compiles_to_artist_query() {
    let plan = effective(compile(vec![
        node(
            "Fresh",
            &[
                ("type", "query"),
                ("artist_id", "4Z8W4fKeB5YxbusRsdQVPb"),
                ("include_features", "false"),
                ("source", "albums"),
                ("must_be_liked", "true"),
            ],
        ),
        node("Sink", &[]),
        edge("Fresh", "Sink", &[]),
    ]));
    let q = plan
        .iter()
        .find_map(|a| match &a.action_type {
            ActionType::QuerySongsByArtist(q) => Some(q.clone()),
            _ => None,
        })
        .expect("plan should hold an artist query");
    assert_eq!(q.artist_id, "4Z8W4fKeB5YxbusRsdQVPb");
    assert_eq!(q.include_features, Some(false));
    assert_eq!(q.source, Some(mixify::QuerySource::Albums));
    assert_eq!(q.must_be_liked, Some(true));
    // The query node has no reference, so it is created and saved.
    assert!(plan.iter().any(|a| matches!(a.action_type, ActionType::CreatePlaylist)
        && a.node == "Fresh"));
}

#[test]
fn depth_groups_follow_recursion() {
    let u = "https://open.spotify.com/playlist/ffffffffffffffffffffff";
    let plan = compile(vec![
        node("Base", &[("URL", u)]),
        node("Mid", &[]),
        edge("Base", "Mid", &[]),
    ]);
    // The synthetic root sits at depth 1, Mid at 2, Base at 3.
    let base_query = plan
        .iter()
        .find(|a| a.node == "Base" && matches!(a.action_type, ActionType::QuerySongs(_)))
        .unwrap();
    assert_eq!(base_query.idx, 3);
    let mid_save = plan
        .iter()
        .find(|a| a.node == "Mid" && matches!(a.action_type, ActionType::SaveChanges(_)))
        .unwrap();
    assert_eq!(mid_save.idx, 2);
}

#[test]
fn root_actions_trail_the_effective_plan() {
    let u1 = "https://open.spotify.com/playlist/aaaaaaaaaaaaaaaaaaaaa1";
    let plan = compile(vec![
        node("A", &[("URL", u1)]),
        node("B", &[]),
        edge("A", "B", &[]),
    ]);
    // B is terminal, so the synthetic root gains a create, one copy from B
    // and a save — all skipped by the executor.
    let root_actions: Vec<&Action> =
        plan.iter().filter(|a| mixify::executor::is_root_action(a)).collect();
    assert_eq!(root_actions.len(), 3);
    assert!(root_actions.iter().all(|a| a.for_node == "__mixify_root"));
    assert_eq!(plan.len(), root_actions.len() + 4);
}
