use mixify::errors::Error;
use mixify::executor::{
    check_artist_id, collect_contributor_names, is_root_action, parse_playlist_id,
    playlist_description, playlist_title, register_plan, NodeRefs,
};
use mixify::graph::{build_graph, Stmt};
use mixify::logger::MemoryLogger;
use mixify::post_apply::create_post_apply_file;
use mixify::settings::parse_config;
use mixify::snapshot::{default_snapshot, read_snapshot_file, snapshot_with_header};
use mixify::text::last_segment;
use mixify::traits::{OptionExtension, ResultExtension};

fn pairs(items: &[(&str, &str)]) -> Vec<(String, String)> {
    items.iter().map(|(k, v)| (k.to_string(), v.to_string())).collect()
}

#[test]
fn post_apply_splices_into_empty_statement() {
    let content = "digraph G {\n    A [URL=\"u\"];\n    B;\n    A -> B;\n}";
    let out = create_post_apply_file(
        content,
        &pairs(&[("B", "1l3dIZoMLFmcnv4B2nGJ0C")]),
        &vec!["B".to_string()],
    )
    .unwrap();
    assert_eq!(
        out,
        "digraph G {\n    A [URL=\"u\"];\n    B \
         [URL=\"https://open.spotify.com/playlist/1l3dIZoMLFmcnv4B2nGJ0C\"];\n    A -> B;\n}"
    );
}

#[test]
fn post_apply_splices_into_existing_attribute_list() {
    let content = "digraph G { B [label=\"mix\"]; }";
    let out = create_post_apply_file(
        content,
        &pairs(&[("B", "abc123")]),
        &vec!["B".to_string()],
    )
    .unwrap();
    assert_eq!(
        out,
        "digraph G { B [URL=\"https://open.spotify.com/playlist/abc123\", label=\"mix\"]; }"
    );
}

#[test]
fn post_apply_matches_quoted_node_names() {
    let content = "digraph G { \"My B\" [label=\"mix\"]; }";
    let out = create_post_apply_file(
        content,
        &pairs(&[("My B", "abc123")]),
        &vec!["My B".to_string()],
    )
    .unwrap();
    assert_eq!(
        out,
        "digraph G { \"My B\" [URL=\"https://open.spotify.com/playlist/abc123\", label=\"mix\"]; }"
    );
}

#[test]
fn post_apply_leaves_nodes_with_known_playlists_alone() {
    let content = "digraph G { A; B; }";
    let out = create_post_apply_file(
        content,
        &pairs(&[("A", "id1"), ("B", "id2")]),
        &vec!["B".to_string()],
    )
    .unwrap();
    assert_eq!(
        out,
        "digraph G { A; B [URL=\"https://open.spotify.com/playlist/id2\"]; }"
    );
}

#[test]
fn post_apply_skips_edge_statements() {
    let content = "digraph G { A -> B; B; }";
    let out = create_post_apply_file(content, &pairs(&[("B", "id2")]), &vec!["B".to_string()])
        .unwrap();
    assert_eq!(
        out,
        "digraph G { A -> B; B [URL=\"https://open.spotify.com/playlist/id2\"]; }"
    );
}

#[test]
fn snapshot_selection_needs_exactly_one_candidate() {
    assert_eq!(
        read_snapshot_file(vec![], "edit").unwrap_err(),
        Error::NoSnapshotFile { suffix: "edit".to_string() }
    );
    assert_eq!(
        read_snapshot_file(vec!["a".to_string(), "b".to_string()], "edit").unwrap_err(),
        Error::AmbiguousSnapshotFile { suffix: "edit".to_string() }
    );
    assert_eq!(read_snapshot_file(vec!["a".to_string()], "edit").unwrap(), "a");
}

#[test]
fn snapshot_texts_carry_name_and_time() {
    let s = snapshot_with_header("mine", "2024-01-02 03:04:05", "digraph G {}");
    assert_eq!(
        s,
        "// Name: mine\n// Created at: 2024-01-02 03:04:05\n// \
         -------------------------------\ndigraph G {}"
    );
    let d = default_snapshot("mine", "2024-01-02 03:04:05");
    assert!(d.starts_with("// Name: mine\n// Created at: 2024-01-02 03:04:05\n\ndigraph G {"));
    assert!(d.contains("Chill_lofi -> Lofi;"));
}

#[test]
fn config_settings_parse_or_name_the_culprit() {
    let c = parse_config("true", "-mix".to_string(), "false").unwrap();
    assert!(c.allow_removing_songs);
    assert!(!c.write_description);
    assert_eq!(c.mixstack_suffix, "-mix");
    assert_eq!(
        parse_config("yes", "-mix".to_string(), "false").unwrap_err(),
        Error::InvalidSetting { key: "ALLOW_REMOVING_SONGS".to_string(), raw: "yes".to_string() }
    );
    assert_eq!(
        parse_config("true", "-mix".to_string(), "maybe").unwrap_err(),
        Error::InvalidSetting {
            key: "CREATE_PLAYLIST_DESCRIPTION".to_string(),
            raw: "maybe".to_string(),
        }
    );
}

#[test]
fn playlist_ids_come_from_the_url_tail() {
    let id = parse_playlist_id("A", "https://open.spotify.com/playlist/3r9s1n1lxznFBJkNJlzPu9")
        .unwrap();
    assert_eq!(id, "3r9s1n1lxznFBJkNJlzPu9");
    let err = parse_playlist_id("A", "https://open.spotify.com/playlist/not valid").unwrap_err();
    assert_eq!(
        err,
        Error::InvalidPlaylistId {
            node: "A".to_string(),
            raw: "https://open.spotify.com/playlist/not valid".to_string(),
        }
    );
    assert_eq!(last_segment("spotify:playlist:abc", ':'), "abc");
    assert_eq!(last_segment("plain", ':'), "plain");
}

#[test]
fn artist_ids_are_checked_before_use() {
    assert!(check_artist_id("7gW0r5CkdEUMm42w9XpyZO").is_ok());
    assert_eq!(
        check_artist_id("no spaces allowed").unwrap_err(),
        Error::InvalidArtistId { raw: "no spaces allowed".to_string() }
    );
}

#[test]
fn registering_a_plan_seeds_store_refs_and_missing() {
    let url = "https://open.spotify.com/playlist/44xuOOjdOcWDeVsIthiEUG";
    let stmts = vec![
        Stmt::NodeDecl { name: "A".to_string(), attrs: pairs(&[("URL", url)]) },
        Stmt::NodeDecl { name: "B".to_string(), attrs: vec![] },
        Stmt::Edge { from: "A".to_string(), to: "B".to_string(), attrs: vec![] },
    ];
    let g = build_graph(&stmts).unwrap();
    let plan = mixify::plan::create_execution_plan(&g).unwrap().pop().unwrap();
    let reg = register_plan(&plan);
    assert!(reg.store.contains("A"));
    assert!(reg.store.contains("B"));
    assert_eq!(reg.refs.get("A"), Some("44xuOOjdOcWDeVsIthiEUG".to_string()));
    assert_eq!(reg.refs.get("B"), None);
    assert!(reg.missing.contains(&"B".to_string()));
    assert!(!reg.missing.contains(&"A".to_string()));
    // The synthetic root's own actions are skipped during execution.
    assert!(plan.iter().any(|a| is_root_action(a)));
    assert!(plan.iter().any(|a| !is_root_action(a)));
}

#[test]
fn created_playlists_get_title_and_description() {
    let url = "https://open.spotify.com/playlist/44xuOOjdOcWDeVsIthiEUG";
    let stmts = vec![
        Stmt::NodeDecl { name: "A".to_string(), attrs: pairs(&[("URL", url)]) },
        Stmt::NodeDecl { name: "B".to_string(), attrs: pairs(&[("URL", url)]) },
        Stmt::NodeDecl { name: "C".to_string(), attrs: vec![] },
        Stmt::Edge { from: "A".to_string(), to: "C".to_string(), attrs: vec![] },
        Stmt::Edge { from: "B".to_string(), to: "C".to_string(), attrs: vec![] },
    ];
    let g = build_graph(&stmts).unwrap();
    let c = 2usize;
    let names = collect_contributor_names(&g, c);
    assert_eq!(names, vec!["A".to_string(), "B".to_string()]);
    assert_eq!(
        playlist_description(&names),
        "Generated mixstack using mixify. This playlist consists of: A, B."
    );
    assert_eq!(playlist_title(&"C".to_string(), &None, "-mix"), "C-mix");
    assert_eq!(playlist_title(&"C".to_string(), &Some("Chill".to_string()), "-mix"), "Chill-mix");
}

#[test]
fn reference_map_overrides_and_falls_back() {
    let mut refs = NodeRefs::new();
    refs.insert("A", "first".to_string());
    refs.insert("A", "second".to_string());
    assert_eq!(refs.get("A"), Some("second".to_string()));
    assert_eq!(refs.get("B"), None);
}

#[test]
fn memory_logger_accumulates_everything() {
    let mut logger = MemoryLogger::new();
    assert_eq!(logger.write(b"hello "), 6);
    assert_eq!(logger.write(b"world"), 5);
    logger.flush();
    assert_eq!(logger.buffer, b"hello world".to_vec());
}

#[test]
fn foreign_failures_become_contextual_errors() {
    let ok: Result<u32, String> = Ok(7);
    assert_eq!(ok.or_error_str("ctx").unwrap(), 7);
    let bad: Result<u32, String> = Err("boom".to_string());
    assert_eq!(
        bad.or_error("ctx".to_string()).unwrap_err(),
        Error::Remote { context: "ctx".to_string() }
    );
    let none: Option<u32> = None;
    assert_eq!(
        none.or_error_str("gone").unwrap_err(),
        Error::Remote { context: "gone".to_string() }
    );
    assert_eq!(Some(3u32).or_error_str("gone").unwrap(), 3);
}
