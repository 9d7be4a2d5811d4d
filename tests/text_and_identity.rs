use threadgraph::event::{EdgeKind, Timestamp};
use threadgraph::graph::{edge_statement, node_label, node_statement, render_graph, Graph, GraphEdge, GraphNode};
use threadgraph::identity::{directory_url, DidDocument, IdentityCache, ResolveAction, ResolveError, ResolveEvent};
use threadgraph::uri::{author_of, post_uri};

#[test]
fn post_uri_joins_repo_and_path() {
    assert_eq!(post_uri("did:plc:abc", "app.bsky.feed.post/3k"), "at://did:plc:abc/app.bsky.feed.post/3k");
    assert_eq!(post_uri("", ""), "at:///");
}

#[test]
fn author_is_third_field() {
    assert_eq!(author_of("at://did:plc:abc/app.bsky.feed.post/3k"), Some("did:plc:abc".to_string()));
    assert_eq!(author_of("at://did:plc:abc"), Some("did:plc:abc".to_string()));
    assert_eq!(author_of("a/b/c/d"), Some("c".to_string()));
    assert_eq!(author_of("at:///x"), Some("".to_string()));
    assert_eq!(author_of("at:/"), None);
    assert_eq!(author_of(""), None);
}

#[test]
fn edge_kind_names_round_trip() {
    assert_eq!(EdgeKind::Quote.name(), "quote");
    assert_eq!(EdgeKind::Reply.name(), "reply");
    assert_eq!(EdgeKind::parse("quote"), Some(EdgeKind::Quote));
    assert_eq!(EdgeKind::parse("reply"), Some(EdgeKind::Reply));
    assert_eq!(EdgeKind::parse("Reply"), None);
}

#[test]
fn labels_strip_scheme_or_fall_back_to_author() {
    assert_eq!(node_label(&Some("at://alice.test".to_string()), &"did:plc:a".to_string()), "alice.test");
    assert_eq!(node_label(&Some("alice.test".to_string()), &"did:plc:a".to_string()), "alice.test");
    assert_eq!(node_label(&None, &"did:plc:a".to_string()), "did:plc:a");
}

#[test]
fn statements_have_fixed_shape() {
    assert_eq!(
        node_statement(12, "alice.test", "Jan 1, 00:00:00"),
        "\t\"12\" [label=<\n\t\t<font face=\"Sans-Serif\">alice.test</font><br/>\n\t\t<font face=\"Sans-Serif\" color=\"#37474F\">Jan 1, 00:00:00</font>\n\t>, shape=rectangle, fixedsize=true, width=2.7, height=0.75]\n"
    );
    assert_eq!(edge_statement(3, -41), "\t\"3\" -> \"-41\"\n");
}

#[test]
fn render_graph_describes_nodes_then_edges() {
    let g = Graph {
        nodes: vec![
            GraphNode {
                id: 1,
                uri: "at://did:plc:a/p/1".to_string(),
                did: "did:plc:a".to_string(),
                also_known_as: Some("at://alice.test".to_string()),
                created_at: Timestamp { secs: 1_709_647_389, nanos: 0 },
                text: "hi".to_string(),
            },
            GraphNode {
                id: 2,
                uri: "at://did:plc:b/p/2".to_string(),
                did: "did:plc:b".to_string(),
                also_known_as: None,
                created_at: Timestamp { secs: 0, nanos: 0 },
                text: "yo".to_string(),
            },
        ],
        edges: vec![GraphEdge { id: 1, source: 1, target: 2, kind: EdgeKind::Reply }],
    };
    let expected = format!(
        "digraph tree {{\n{}{}{}}}\n",
        node_statement(1, "alice.test", "Mar 5, 14:03:09"),
        node_statement(2, "did:plc:b", "Jan 1, 00:00:00"),
        "\t\"1\" -> \"2\"\n"
    );
    assert_eq!(render_graph(&g), Some(expected));
}

#[test]
fn render_empty_graph() {
    let g = Graph { nodes: vec![], edges: vec![] };
    assert_eq!(render_graph(&g), Some("digraph tree {\n}\n".to_string()));
}

#[test]
fn render_fails_on_unrepresentable_time() {
    let g = Graph {
        nodes: vec![GraphNode {
            id: 1,
            uri: "u".to_string(),
            did: "d".to_string(),
            also_known_as: None,
            created_at: Timestamp { secs: i64::MAX, nanos: 0 },
            text: "t".to_string(),
        }],
        edges: vec![],
    };
    assert_eq!(render_graph(&g), None);
}

#[test]
fn directory_url_rejects_web_identifiers() {
    assert_eq!(directory_url("did:plc:abc"), Ok("https://plc.directory/did:plc:abc".to_string()));
    assert_eq!(directory_url("did:web:example.com"), Err(ResolveError::Unsupported));
    assert_eq!(directory_url("did:web"), Ok("https://plc.directory/did:web".to_string()));
}

#[test]
fn handle_is_last_alias() {
    let d = DidDocument { also_known_as: vec![Some("at://old.test".to_string()), Some("at://new.test".to_string())] };
    assert_eq!(d.handle(), Some("at://new.test".to_string()));
    let d = DidDocument { also_known_as: vec![Some("at://old.test".to_string()), None] };
    assert_eq!(d.handle(), None);
    let d = DidDocument { also_known_as: vec![] };
    assert_eq!(d.handle(), None);
}

fn is_return(a: &ResolveAction, h: Option<&str>) -> bool {
    match a {
        ResolveAction::Return(v) => v.as_deref() == h,
        _ => false,
    }
}

#[test]
fn second_resolution_is_served_from_memory() {
    let mut c = IdentityCache::new();
    let did = "did:plc:abc".to_string();
    assert!(matches!(c.resolve_step(&did, ResolveEvent::Start), ResolveAction::LookupStore));
    match c.resolve_step(&did, ResolveEvent::StoreMiss) {
        ResolveAction::Fetch(url) => assert_eq!(url, "https://plc.directory/did:plc:abc"),
        _ => panic!("expected a fetch"),
    }
    let doc = DidDocument { also_known_as: vec![Some("at://abc.test".to_string())] };
    match c.resolve_step(&did, ResolveEvent::Fetched(doc)) {
        ResolveAction::Save(h) => assert_eq!(h, Some("at://abc.test".to_string())),
        _ => panic!("expected a save"),
    }
    assert!(is_return(&c.resolve_step(&did, ResolveEvent::Start), Some("at://abc.test")));
}

#[test]
fn store_hit_is_not_copied_into_memory() {
    let mut c = IdentityCache::new();
    let did = "did:plc:abc".to_string();
    assert!(is_return(&c.resolve_step(&did, ResolveEvent::StoreHit(Some("at://x.test".to_string()))), Some("at://x.test")));
    assert!(matches!(c.resolve_step(&did, ResolveEvent::Start), ResolveAction::LookupStore));
}

#[test]
fn resolution_failures() {
    let mut c = IdentityCache::new();
    let web = "did:web:example.com".to_string();
    assert!(matches!(c.resolve_step(&web, ResolveEvent::StoreMiss), ResolveAction::Fail(ResolveError::Unsupported)));
    let did = "did:plc:abc".to_string();
    assert!(matches!(c.resolve_step(&did, ResolveEvent::FetchFailed), ResolveAction::Fail(ResolveError::LookupFailure)));
    assert_eq!(c.lookup(&did), None);
}

#[test]
fn resolved_none_is_cached_too() {
    let mut c = IdentityCache::new();
    let did = "did:plc:none".to_string();
    c.resolve_step(&did, ResolveEvent::Fetched(DidDocument { also_known_as: vec![] }));
    assert_eq!(c.lookup(&did), Some(None));
}

#[test]
fn least_recently_used_identifier_is_evicted() {
    let mut c = IdentityCache::new();
    for i in 0..100 {
        c.record(format!("did:plc:{i}"), Some(format!("at://h{i}.test")));
    }
    assert_eq!(c.lookup(&"did:plc:0".to_string()), Some(Some("at://h0.test".to_string())));
    c.record("did:plc:new".to_string(), None);
    assert_eq!(c.lookup(&"did:plc:1".to_string()), None);
    assert_eq!(c.lookup(&"did:plc:0".to_string()), Some(Some("at://h0.test".to_string())));
    assert_eq!(c.lookup(&"did:plc:new".to_string()), Some(None));
}
