use mixify::errors::Error;
use mixify::graph::{build_graph, Stmt};
use mixify::validate::validate_graph;
use mixify::QuerySource;

fn node(name: &str, attrs: &[(&str, &str)]) -> Stmt {
    Stmt::NodeDecl {
        name: name.to_string(),
        attrs: attrs.iter().map(|(k, v)| (k.to_string(), v.to_string())).collect(),
    }
}

fn edge(from: &str, to: &str, attrs: &[(&str, &str)]) -> Stmt {
    Stmt::Edge {
        from: from.to_string(),
        to: to.to_string(),
        attrs: attrs.iter().map(|(k, v)| (k.to_string(), v.to_string())).collect(),
    }
}

const URL: &str = "https://open.spotify.com/playlist/44xuOOjdOcWDeVsIthiEUG";

#[test]
fn edge_to_undeclared_node_is_rejected_naming_it() {
    let r = build_graph(&vec![node("A", &[("URL", URL)]), edge("A", "Ghost", &[])]);
    assert_eq!(r.unwrap_err(), Error::UngraphedNode { name: "Ghost".to_string() });
}

#[test]
fn edge_from_undeclared_node_is_rejected_naming_it() {
    let r = build_graph(&vec![node("A", &[("URL", URL)]), edge("Ghost", "A", &[])]);
    assert_eq!(r.unwrap_err(), Error::UngraphedNode { name: "Ghost".to_string() });
}

#[test]
fn duplicate_declaration_is_rejected() {
    let r = build_graph(&vec![node("A", &[]), node("A", &[])]);
    assert_eq!(r.unwrap_err(), Error::DuplicateNode { name: "A".to_string() });
}

#[test]
fn reserved_root_name_is_rejected() {
    let r = build_graph(&vec![node("__mixify_root", &[])]);
    assert_eq!(r.unwrap_err(), Error::ReservedNodeName { name: "__mixify_root".to_string() });
}

#[test]
fn first_attribute_match_wins() {
    let g = build_graph(&vec![node("A", &[("label", "first"), ("label", "second")])]).unwrap();
    assert_eq!(g.nodes[0].label, Some("first".to_string()));
}

#[test]
fn base_node_without_reference_is_rejected() {
    let g = build_graph(&vec![node("A", &[]), node("B", &[]), edge("A", "B", &[])]).unwrap();
    assert_eq!(
        validate_graph(&g).unwrap_err(),
        Error::MissingPlaylistReference { node: "A".to_string() }
    );
}

#[test]
fn base_node_with_invalid_reference_is_rejected() {
    let g = build_graph(&vec![
        node("A", &[("URL", "not a url")]),
        node("B", &[]),
        edge("A", "B", &[]),
    ])
    .unwrap();
    assert_eq!(
        validate_graph(&g).unwrap_err(),
        Error::InvalidReference { node: "A".to_string(), raw: "not a url".to_string() }
    );
}

#[test]
fn query_base_node_needs_no_reference() {
    let g = build_graph(&vec![
        node("A", &[("type", "query"), ("artist_id", "4Z8W4fKeB5YxbusRsdQVPb")]),
        node("B", &[]),
        edge("A", "B", &[]),
    ])
    .unwrap();
    assert!(validate_graph(&g).is_ok());
}

#[test]
fn valid_reference_passes_validation() {
    let g = build_graph(&vec![node("A", &[("URL", URL)]), node("B", &[]), edge("A", "B", &[])])
        .unwrap();
    assert!(validate_graph(&g).is_ok());
}

#[test]
fn query_node_without_artist_id_is_rejected() {
    let r = build_graph(&vec![node("A", &[("type", "query")])]);
    assert_eq!(r.unwrap_err(), Error::MissingArtistId { node: "A".to_string() });
}

#[test]
fn query_node_with_bad_bool_attribute_is_rejected() {
    let r = build_graph(&vec![node(
        "A",
        &[("type", "query"), ("must_be_liked", "yes"), ("artist_id", "x1")],
    )]);
    assert_eq!(
        r.unwrap_err(),
        Error::BadBoolAttribute {
            node: "A".to_string(),
            key: "must_be_liked".to_string(),
            raw: "yes".to_string(),
        }
    );
}

#[test]
fn query_node_with_unknown_source_is_rejected() {
    let r = build_graph(&vec![node(
        "A",
        &[("type", "query"), ("artist_id", "x1"), ("source", "radio")],
    )]);
    assert_eq!(
        r.unwrap_err(),
        Error::InvalidSource { node: "A".to_string(), raw: "radio".to_string() }
    );
}

#[test]
fn source_names_parse_ignoring_case() {
    assert_eq!(QuerySource::from_str("liked"), Some(QuerySource::LikedSongs));
    assert_eq!(QuerySource::from_str("LIKED"), Some(QuerySource::LikedSongs));
    assert_eq!(QuerySource::from_str("Playlists"), Some(QuerySource::Playlists));
    assert_eq!(QuerySource::from_str("alBums"), Some(QuerySource::Albums));
    assert_eq!(QuerySource::from_str("radio"), None);
}

#[test]
fn subtract_attribute_flips_edge_meaning() {
    let g = build_graph(&vec![
        node("A", &[("URL", URL)]),
        node("B", &[]),
        edge("A", "B", &[("subtract", "true")]),
    ])
    .unwrap();
    assert!(g.edges[0].subtract);
    let g2 = build_graph(&vec![
        node("A", &[("URL", URL)]),
        node("B", &[]),
        edge("A", "B", &[("subtract", "false")]),
    ])
    .unwrap();
    assert!(!g2.edges[0].subtract);
}
