use threadgraph::builder::{Action, BuildError, NodeEntry, ThreadBuilder};
use threadgraph::event::{EdgeKind, PostEvent, Timestamp};

const ROOT: &str = "at://did:plc:root/app.bsky.feed.post/r1";

struct FakeStore {
    next_id: i64,
    nodes: Vec<(String, String, i64)>,
    edges: Vec<(i64, i64, EdgeKind)>,
}

impl FakeStore {
    fn new(next_id: i64) -> FakeStore {
        FakeStore { next_id, nodes: Vec::new(), edges: Vec::new() }
    }
}

fn event(repo: &str, path: &str, reply: Option<&str>, quote: Option<&str>) -> PostEvent {
    PostEvent {
        repo: repo.to_string(),
        path: path.to_string(),
        text: "hello".to_string(),
        created_at: Timestamp { secs: 1_700_000_000, nanos: 0 },
        reply_parent: reply.map(|s| s.to_string()),
        quoted: quote.map(|s| s.to_string()),
    }
}

fn run(b: &mut ThreadBuilder, st: &mut FakeStore, ev: &PostEvent) -> Result<(), BuildError> {
    let mut pr = b.begin(ev);
    loop {
        match b.next(&mut pr) {
            Action::Done => return Ok(()),
            Action::StoreNode { uri, author } => {
                st.next_id += 1;
                st.nodes.push((uri.clone(), author, st.next_id));
                b.node_stored(uri, st.next_id);
            }
            Action::StoreEdge { source, target, kind } => st.edges.push((source, target, kind)),
            Action::Fail(e) => return Err(e),
        }
    }
}

fn tracked_root_with_node() -> ThreadBuilder {
    ThreadBuilder::new(7, ROOT.to_string(), vec![NodeEntry { uri: ROOT.to_string(), id: 1 }])
}

#[test]
fn reply_to_root_creates_node_and_reply_edge() {
    let mut b = tracked_root_with_node();
    let mut st = FakeStore::new(1);
    let ev = event("did:plc:d1", "app.bsky.feed.post/3ka", Some(ROOT), None);
    assert_eq!(run(&mut b, &mut st, &ev), Ok(()));
    assert_eq!(st.nodes.len(), 1);
    assert_eq!(st.nodes[0].0, "at://did:plc:d1/app.bsky.feed.post/3ka");
    assert_eq!(st.nodes[0].1, "did:plc:d1");
    assert_eq!(st.edges, vec![(1, 2, EdgeKind::Reply)]);
    assert!(b.is_member(&"at://did:plc:d1/app.bsky.feed.post/3ka".to_string()));
}

#[test]
fn quote_of_member_creates_node_and_quote_edge() {
    let mut b = tracked_root_with_node();
    let mut st = FakeStore::new(1);
    let a = event("did:plc:d1", "app.bsky.feed.post/3ka", Some(ROOT), None);
    run(&mut b, &mut st, &a).unwrap();
    let node1 = "at://did:plc:d1/app.bsky.feed.post/3ka";
    let q = event("did:plc:d2", "app.bsky.feed.post/3kb", None, Some(node1));
    assert_eq!(run(&mut b, &mut st, &q), Ok(()));
    assert_eq!(st.nodes.len(), 2);
    assert_eq!(st.nodes[1].0, "at://did:plc:d2/app.bsky.feed.post/3kb");
    assert_eq!(st.edges[1], (2, 3, EdgeKind::Quote));
}

#[test]
fn reply_to_unseen_uri_is_dropped() {
    let mut b = tracked_root_with_node();
    let mut st = FakeStore::new(1);
    let ev = event("did:plc:d3", "app.bsky.feed.post/3kc", Some("at://did:plc:x/app.bsky.feed.post/zz"), None);
    assert_eq!(run(&mut b, &mut st, &ev), Ok(()));
    assert!(st.nodes.is_empty());
    assert!(st.edges.is_empty());
    assert!(!b.is_member(&"at://did:plc:d3/app.bsky.feed.post/3kc".to_string()));
    assert!(b.is_member(&ROOT.to_string()));
}

#[test]
fn quote_of_unseen_uri_is_dropped() {
    let mut b = tracked_root_with_node();
    let mut st = FakeStore::new(1);
    let ev = event("did:plc:d3", "app.bsky.feed.post/3kc", None, Some("at://did:plc:x/app.bsky.feed.post/zz"));
    assert_eq!(run(&mut b, &mut st, &ev), Ok(()));
    assert!(st.nodes.is_empty());
    assert!(st.edges.is_empty());
}

#[test]
fn redelivered_event_adds_no_node_but_repeats_edge() {
    let mut b = tracked_root_with_node();
    let mut st = FakeStore::new(1);
    let ev = event("did:plc:d1", "app.bsky.feed.post/3ka", Some(ROOT), None);
    run(&mut b, &mut st, &ev).unwrap();
    run(&mut b, &mut st, &ev).unwrap();
    assert_eq!(st.nodes.len(), 1);
    assert_eq!(st.edges, vec![(1, 2, EdgeKind::Reply), (1, 2, EdgeKind::Reply)]);
}

#[test]
fn node_stored_twice_keeps_first_id() {
    let mut b = tracked_root_with_node();
    let uri = "at://did:plc:d1/app.bsky.feed.post/3ka".to_string();
    b.node_stored(uri.clone(), 5);
    b.node_stored(uri.clone(), 9);
    assert_eq!(b.node_id(&uri), Some(5));
}

#[test]
fn membership_grows_along_a_chain() {
    let mut b = tracked_root_with_node();
    let mut st = FakeStore::new(1);
    let uris = [
        "at://did:plc:a/app.bsky.feed.post/1",
        "at://did:plc:b/app.bsky.feed.post/2",
        "at://did:plc:c/app.bsky.feed.post/3",
    ];
    let evs = vec![
        event("did:plc:a", "app.bsky.feed.post/1", Some(ROOT), None),
        event("did:plc:z", "app.bsky.feed.post/9", Some("at://nowhere/x/y"), None),
        event("did:plc:b", "app.bsky.feed.post/2", Some(uris[0]), None),
        event("did:plc:c", "app.bsky.feed.post/3", None, Some(uris[1])),
    ];
    let mut last = 1;
    for ev in &evs {
        run(&mut b, &mut st, ev).unwrap();
        let count = uris.iter().filter(|u| b.is_member(&u.to_string())).count() + 1;
        assert!(count >= last);
        last = count;
    }
    assert_eq!(last, 4);
}

#[test]
fn every_edge_joins_stored_nodes() {
    let mut b = tracked_root_with_node();
    let mut st = FakeStore::new(1);
    let first = "at://did:plc:a/app.bsky.feed.post/1";
    run(&mut b, &mut st, &event("did:plc:a", "app.bsky.feed.post/1", Some(ROOT), None)).unwrap();
    run(&mut b, &mut st, &event("did:plc:b", "app.bsky.feed.post/2", Some(first), Some(ROOT))).unwrap();
    let mut ids = vec![1];
    ids.extend(st.nodes.iter().map(|n| n.2));
    assert_eq!(st.edges.len(), 3);
    for (s, t, _) in &st.edges {
        assert!(ids.contains(s) && ids.contains(t));
    }
}

#[test]
fn quote_is_linked_before_reply() {
    let mut b = tracked_root_with_node();
    let mut st = FakeStore::new(1);
    let first = "at://did:plc:a/app.bsky.feed.post/1";
    run(&mut b, &mut st, &event("did:plc:a", "app.bsky.feed.post/1", Some(ROOT), None)).unwrap();
    run(&mut b, &mut st, &event("did:plc:b", "app.bsky.feed.post/2", Some(first), Some(ROOT))).unwrap();
    assert_eq!(st.nodes.len(), 2);
    assert_eq!(st.edges[1], (1, 3, EdgeKind::Quote));
    assert_eq!(st.edges[2], (2, 3, EdgeKind::Reply));
}

#[test]
fn root_post_arriving_late_gets_its_node_only() {
    let mut b = ThreadBuilder::new(7, ROOT.to_string(), Vec::new());
    let mut st = FakeStore::new(10);
    let ev = event("did:plc:root", "app.bsky.feed.post/r1", Some("at://did:plc:q/app.bsky.feed.post/0"), None);
    assert_eq!(run(&mut b, &mut st, &ev), Ok(()));
    assert_eq!(st.nodes, vec![(ROOT.to_string(), "did:plc:root".to_string(), 11)]);
    assert!(st.edges.is_empty());
    assert_eq!(b.node_id(&ROOT.to_string()), Some(11));
}

#[test]
fn reply_to_root_without_node_fails() {
    let mut b = ThreadBuilder::new(7, ROOT.to_string(), Vec::new());
    let mut st = FakeStore::new(1);
    let ev = event("did:plc:d1", "app.bsky.feed.post/3ka", Some(ROOT), None);
    assert_eq!(run(&mut b, &mut st, &ev), Err(BuildError::MissingSourceNode));
    assert!(st.nodes.is_empty());
    assert!(st.edges.is_empty());
}

#[test]
fn edge_without_reported_node_fails() {
    let mut b = tracked_root_with_node();
    let ev = event("did:plc:d1", "app.bsky.feed.post/3ka", Some(ROOT), None);
    let mut pr = b.begin(&ev);
    assert!(matches!(b.next(&mut pr), Action::StoreNode { .. }));
    assert!(matches!(b.next(&mut pr), Action::Fail(BuildError::NodeNotStored)));
    assert!(matches!(b.next(&mut pr), Action::Done));
}

#[test]
fn known_nodes_are_loaded_and_later_entries_win() {
    let b = ThreadBuilder::new(
        3,
        ROOT.to_string(),
        vec![
            NodeEntry { uri: "at://a/b/c".to_string(), id: 4 },
            NodeEntry { uri: "at://a/b/d".to_string(), id: 5 },
            NodeEntry { uri: "at://a/b/c".to_string(), id: 6 },
        ],
    );
    assert_eq!(b.thread_id(), 3);
    assert_eq!(b.node_id(&"at://a/b/c".to_string()), Some(6));
    assert_eq!(b.node_id(&"at://a/b/d".to_string()), Some(5));
    assert_eq!(b.node_id(&ROOT.to_string()), None);
    assert!(b.is_member(&ROOT.to_string()));
    assert!(b.is_member(&"at://a/b/d".to_string()));
}

#[test]
fn progress_reports_post_uri() {
    let b = tracked_root_with_node();
    let pr = b.begin(&event("did:plc:x", "coll/key", None, None));
    assert_eq!(pr.post_uri(), "at://did:plc:x/coll/key");
}
