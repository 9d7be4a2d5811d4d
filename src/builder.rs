//! The per-root thread builder: decides, event by event, whether a post
//! extends a tracked thread, and which nodes and edges that calls for.
//!
//! Storing is done by the caller. For one event it calls [`ThreadBuilder::begin`],
//! then [`ThreadBuilder::next`] until the action is `Done` or `Fail`; after
//! performing a `StoreNode` it reports the stored id with
//! [`ThreadBuilder::node_stored`].
//!
//! Edges are not de-duplicated: an event delivered twice links its post to
//! the same parent twice.
use crate::event::{opt_view, EdgeKind, PostEvent};
use crate::uri::{author_of, author_of_spec, post_uri, post_uri_of};
use vstd::prelude::*;

verus! {

/// A post URI and the id of the node stored for it.
pub struct NodeEntry {
    pub uri: String,
    pub id: i64,
}

/// A reference from the post being processed to another post.
pub struct Link {
    pub target: String,
    pub kind: EdgeKind,
}

/// Why processing an event stopped.
#[derive(Clone, Copy, Debug, PartialEq, Eq, Structural)]
pub enum BuildError {
    /// The post URI has no author field.
    MissingAuthor,
    /// The referenced post is a member but has no stored node.
    MissingSourceNode,
    /// An edge waited for a node that was never reported as stored.
    NodeNotStored,
}

/// What the caller is to do next for the current event.
pub enum Action {
    /// The event is fully processed.
    Done,
    /// Resolve `author`, store a node for `uri`, then report its id.
    StoreNode { uri: String, author: String },
    /// Store an edge between two stored nodes.
    StoreEdge { source: i64, target: i64, kind: EdgeKind },
    /// Processing of the event failed.
    Fail(BuildError),
}

/// [`Action`] over plain values.
pub enum Step {
    Done,
    StoreNode(Seq<char>, Seq<char>),
    StoreEdge(i64, i64, EdgeKind),
    Fail(BuildError),
}

impl Action {
    pub open spec fn view(&self) -> Step {
        match self {
            Action::Done => Step::Done,
            Action::StoreNode { uri, author } => Step::StoreNode(uri@, author@),
            Action::StoreEdge { source, target, kind } => Step::StoreEdge(*source, *target, *kind),
            Action::Fail(e) => Step::Fail(*e),
        }
    }
}

/// Where the processing of one event stands.
pub struct Progress {
    post: String,
    author: Option<String>,
    links: Vec<Link>,
    next: usize,
    create_only: bool,
    pending: Option<(i64, EdgeKind)>,
}

/// [`Progress`] over plain values.
pub struct ProgressModel {
    /// URI of the post being processed.
    pub post: Seq<char>,
    /// Its author identifier, if the URI has one.
    pub author: Option<Seq<char>>,
    /// References still to examine, in order.
    pub links: Seq<(Seq<char>, EdgeKind)>,
    /// The post is a member without a node, and only its node is owed.
    pub create_only: bool,
    /// An edge (source id, kind) to store once the post's node is stored.
    pub pending: Option<(i64, EdgeKind)>,
}

pub open spec fn link_views(links: Seq<Link>) -> Seq<(Seq<char>, EdgeKind)> {
    Seq::new(links.len(), |i: int| (links[i].target@, links[i].kind))
}

impl Progress {
    pub closed spec fn view(&self) -> ProgressModel {
        ProgressModel {
            post: self.post@,
            author: match self.author {
                Some(a) => Some(a@),
                None => None,
            },
            links: link_views(self.links@).skip(self.next as int),
            create_only: self.create_only,
            pending: self.pending,
        }
    }

    pub closed spec fn wf(&self) -> bool {
        self.next <= self.links.len()
    }

    /// URI of the post being processed.
    pub fn post_uri(&self) -> (r: &String)
        ensures
            r@ == self@.post,
    {
        &self.post
    }
}

/// The URIs that belong to a thread: those with a node, and the root.
pub open spec fn members_of(ids: Map<Seq<char>, i64>, root: Seq<char>) -> Set<Seq<char>> {
    ids.dom().insert(root)
}

/// The references an event carries: the quoted post first, then the parent.
pub open spec fn event_links(quoted: Option<Seq<char>>, parent: Option<Seq<char>>) -> Seq<
    (Seq<char>, EdgeKind),
> {
    let q = match quoted {
        Some(u) => seq![(u, EdgeKind::Quote)],
        None => Seq::empty(),
    };
    let r = match parent {
        Some(u) => seq![(u, EdgeKind::Reply)],
        None => Seq::empty(),
    };
    q + r
}

/// How processing of an event with post URI `post` starts: a member without a
/// node only gets its node; any other post has its references examined.
pub open spec fn initial_progress(
    ids: Map<Seq<char>, i64>,
    root: Seq<char>,
    post: Seq<char>,
    links: Seq<(Seq<char>, EdgeKind)>,
) -> ProgressModel {
    let create_only = members_of(ids, root).contains(post) && !ids.contains_key(post);
    ProgressModel {
        post,
        author: author_of_spec(post),
        links: if create_only {
            Seq::empty()
        } else {
            links
        },
        create_only,
        pending: None,
    }
}

/// Index of the first reference whose target is in `members`.
pub open spec fn first_member(members: Set<Seq<char>>, links: Seq<(Seq<char>, EdgeKind)>) -> Option<
    nat,
>
    decreases links.len(),
{
    if links.len() == 0 {
        None
    } else if members.contains(links[0].0) {
        Some(0)
    } else {
        match first_member(members, links.skip(1)) {
            Some(j) => Some(j + 1),
            None => None,
        }
    }
}

/// The index that [`first_member`] gives is that of the first reference into
/// `members`.
pub proof fn lemma_first_member(members: Set<Seq<char>>, links: Seq<(Seq<char>, EdgeKind)>)
    ensures
        match first_member(members, links) {
            Some(j) => j < links.len() && members.contains(links[j as int].0) && forall|k: int|
                0 <= k < j ==> !members.contains(#[trigger] links[k].0),
            None => forall|k: int| 0 <= k < links.len() ==> !members.contains(#[trigger] links[k].0),
        },
    decreases links.len(),
{
    if links.len() > 0 && !members.contains(links[0].0) {
        lemma_first_member(members, links.skip(1));
        assert forall|k: int| 1 <= k < links.len() implies links[k] == links.skip(1)[k - 1] by {}
    }
}

/// One step of processing: the action owed and the progress after it, given
/// the thread's node ids and root.
pub open spec fn transition(ids: Map<Seq<char>, i64>, root: Seq<char>, p: ProgressModel) -> (
    Step,
    ProgressModel,
) {
    let stopped = ProgressModel { links: Seq::empty(), create_only: false, pending: None, ..p };
    if let Some((source, kind)) = p.pending {
        if ids.contains_key(p.post) && is_node_id(ids, source) {
            (Step::StoreEdge(source, ids[p.post], kind), ProgressModel { pending: None, ..p })
        } else {
            (Step::Fail(BuildError::NodeNotStored), stopped)
        }
    } else if p.create_only {
        if ids.contains_key(p.post) {
            (Step::Done, stopped)
        } else {
            match p.author {
                Some(a) => (Step::StoreNode(p.post, a), stopped),
                None => (Step::Fail(BuildError::MissingAuthor), stopped),
            }
        }
    } else {
        match first_member(members_of(ids, root), p.links) {
            None => (Step::Done, stopped),
            Some(j) => {
                let (target, kind) = p.links[j as int];
                let rest = ProgressModel { links: p.links.skip(j + 1 as int), ..p };
                if !ids.contains_key(target) {
                    (Step::Fail(BuildError::MissingSourceNode), stopped)
                } else if ids.contains_key(p.post) {
                    (Step::StoreEdge(ids[target], ids[p.post], kind), rest)
                } else {
                    match p.author {
                        Some(a) => (
                            Step::StoreNode(p.post, a),
                            ProgressModel { pending: Some((ids[target], kind)), ..rest },
                        ),
                        None => (Step::Fail(BuildError::MissingAuthor), stopped),
                    }
                }
            },
        }
    }
}

/// The node ids after a node for `uri` was stored under `id`: an id already
/// recorded for `uri` is kept.
pub open spec fn with_node(ids: Map<Seq<char>, i64>, uri: Seq<char>, id: i64) -> Map<
    Seq<char>,
    i64,
> {
    if ids.contains_key(uri) {
        ids
    } else {
        ids.insert(uri, id)
    }
}

/// `id` is the id of some node of `ids`.
pub open spec fn is_node_id(ids: Map<Seq<char>, i64>, id: i64) -> bool {
    exists|u: Seq<char>| ids.contains_key(u) && ids[u] == id
}

/// Every edge joins two nodes of `ids`.
pub open spec fn edges_within(ids: Map<Seq<char>, i64>, edges: Seq<(i64, i64, EdgeKind)>) -> bool {
    forall|i: int|
        0 <= i < edges.len() ==> is_node_id(ids, #[trigger] edges[i].0) && is_node_id(
            ids,
            edges[i].1,
        )
}

/// The node ids of `entries`; a later entry for a URI wins.
pub open spec fn entries_map(entries: Seq<NodeEntry>) -> Map<Seq<char>, i64>
    decreases entries.len(),
{
    if entries.len() == 0 {
        Map::empty()
    } else {
        entries_map(entries.drop_last()).insert(entries.last().uri@, entries.last().id)
    }
}

/// The reconstruction state of one tracked root.
pub struct ThreadBuilder {
    thread_id: i64,
    root: String,
    entries: Vec<NodeEntry>,
    ids: Ghost<Map<Seq<char>, i64>>,
    issued: Ghost<Seq<(i64, i64, EdgeKind)>>,
}

impl ThreadBuilder {
    /// Node id of each URI with a stored node.
    pub closed spec fn node_ids(&self) -> Map<Seq<char>, i64> {
        self.ids@
    }

    /// The tracked root URI.
    pub closed spec fn root_uri(&self) -> Seq<char> {
        self.root@
    }

    pub closed spec fn thread(&self) -> i64 {
        self.thread_id
    }

    /// The edges this builder asked to store, in order.
    pub closed spec fn edges(&self) -> Seq<(i64, i64, EdgeKind)> {
        self.issued@
    }

    /// The membership set.
    pub open spec fn members(&self) -> Set<Seq<char>> {
        members_of(self.node_ids(), self.root_uri())
    }

    pub closed spec fn wf(&self) -> bool {
        &&& forall|i: int|
            0 <= i < self.entries.len() ==> self.ids@.contains_key(#[trigger] self.entries[i].uri@)
                && self.ids@[self.entries[i].uri@] == self.entries[i].id
        &&& forall|u: Seq<char>|
            #[trigger] self.ids@.contains_key(u) ==> exists|i: int|
                0 <= i < self.entries.len() && self.entries[i].uri@ == u
        &&& forall|i: int, j: int|
            0 <= i < j < self.entries.len() ==> self.entries[i].uri@ != self.entries[j].uri@
        &&& self.ids@.dom().finite()
        &&& edges_within(self.ids@, self.issued@)
    }

    /// Position of the entry for `uri`.
    fn position(&self, uri: &String) -> (r: Option<usize>)
        requires
            self.wf(),
        ensures
            r matches Some(i) ==> i < self.entries.len() && self.entries[i as int].uri@ == uri@,
            r is None ==> !self.node_ids().contains_key(uri@),
    {
        let mut i: usize = 0;
        while i < self.entries.len()
            invariant
                self.wf(),
                i <= self.entries.len(),
                forall|j: int| 0 <= j < i ==> self.entries[j].uri@ != uri@,
            decreases self.entries.len() - i,
        {
            if self.entries[i].uri == *uri {
                return Some(i);
            }
            i = i + 1;
        }
        proof {
            if self.ids@.contains_key(uri@) {
                let k = choose|k: int| 0 <= k < self.entries.len() && self.entries[k].uri@ == uri@;
                assert(self.entries[k].uri@ != uri@);
            }
        }
        None
    }

    /// The node id stored for `uri`, if any.
    pub fn node_id(&self, uri: &String) -> (r: Option<i64>)
        requires
            self.wf(),
        ensures
            r == (if self.node_ids().contains_key(uri@) {
                Some(self.node_ids()[uri@])
            } else {
                None
            }),
    {
        match self.position(uri) {
            Some(i) => Some(self.entries[i].id),
            None => None,
        }
    }

    /// Whether some node has id `id`.
    fn has_node_id(&self, id: i64) -> (r: bool)
        requires
            self.wf(),
        ensures
            r == is_node_id(self.node_ids(), id),
    {
        let mut i: usize = 0;
        while i < self.entries.len()
            invariant
                self.wf(),
                i <= self.entries.len(),
                forall|j: int| 0 <= j < i ==> self.entries[j].id != id,
            decreases self.entries.len() - i,
        {
            if self.entries[i].id == id {
                proof {
                    assert(self.ids@.contains_key(self.entries[i as int].uri@));
                }
                return true;
            }
            i = i + 1;
        }
        proof {
            if is_node_id(self.ids@, id) {
                let u = choose|u: Seq<char>| self.ids@.contains_key(u) && self.ids@[u] == id;
                let k = choose|k: int| 0 <= k < self.entries.len() && self.entries[k].uri@ == u;
                assert(self.ids@[self.entries[k].uri@] == self.entries[k].id);
            }
        }
        false
    }

    /// Whether `uri` belongs to the thread.
    pub fn is_member(&self, uri: &String) -> (r: bool)
        requires
            self.wf(),
        ensures
            r == self.members().contains(uri@),
    {
        if *uri == self.root {
            true
        } else {
            self.position(uri).is_some()
        }
    }

    /// Adds a node for a URI that has none.
    fn push_node(&mut self, uri: String, id: i64)
        requires
            old(self).wf(),
            !old(self).node_ids().contains_key(uri@),
        ensures
            final(self).wf(),
            final(self).node_ids() == old(self).node_ids().insert(uri@, id),
            final(self).root_uri() == old(self).root_uri(),
            final(self).thread() == old(self).thread(),
            final(self).edges() == old(self).edges(),
    {
        let ghost old_ids = self.ids@;
        let ghost old_entries = self.entries@;
        let ghost u = uri@;
        self.entries.push(NodeEntry { uri, id });
        self.ids = Ghost(self.ids@.insert(u, id));
        proof {
            let n = self.entries.len() - 1;
            assert(self.entries[n as int].uri@ == u);
            assert forall|i: int| 0 <= i < self.entries.len() implies self.ids@.contains_key(
                #[trigger] self.entries[i].uri@,
            ) && self.ids@[self.entries[i].uri@] == self.entries[i].id by {
                if i < n {
                    assert(old_ids.contains_key(self.entries[i].uri@));
                }
            }
            assert forall|v: Seq<char>| #[trigger] self.ids@.contains_key(v) implies exists|i: int|
                0 <= i < self.entries.len() && self.entries[i].uri@ == v by {
                if v != u {
                    assert(old_ids.contains_key(v));
                    let k = choose|k: int| 0 <= k < old_entries.len() && old_entries[k].uri@ == v;
                    assert(self.entries[k] == old_entries[k]);
                } else {
                    assert(self.entries[n as int].uri@ == v);
                }
            }
            assert forall|i: int, j: int|
                0 <= i < j < self.entries.len() implies self.entries[i].uri@
                != self.entries[j].uri@ by {
                if j == n {
                    assert(old_ids.contains_key(old_entries[i].uri@));
                } else {
                    assert(self.entries[i] == old_entries[i]);
                    assert(self.entries[j] == old_entries[j]);
                }
            }
            assert forall|i: int| 0 <= i < self.issued@.len() implies is_node_id(
                self.ids@,
                #[trigger] self.issued@[i].0,
            ) && is_node_id(self.ids@, self.issued@[i].1) by {
                let a = choose|v: Seq<char>|
                    old_ids.contains_key(v) && old_ids[v] == self.issued@[i].0;
                let b = choose|v: Seq<char>|
                    old_ids.contains_key(v) && old_ids[v] == self.issued@[i].1;
                assert(self.ids@.contains_key(a) && self.ids@[a] == self.issued@[i].0);
                assert(self.ids@.contains_key(b) && self.ids@[b] == self.issued@[i].1);
            }
        }
    }

    /// Starts tracking `root` in thread `thread_id`, with the nodes already
    /// stored for that thread.
    pub fn new(thread_id: i64, root: String, known: Vec<NodeEntry>) -> (b: Self)
        ensures
            b.wf(),
            b.thread() == thread_id,
            b.root_uri() == root@,
            b.node_ids() == entries_map(known@),
            b.edges() == Seq::<(i64, i64, EdgeKind)>::empty(),
    {
        let mut b = ThreadBuilder {
            thread_id,
            root,
            entries: Vec::new(),
            ids: Ghost(Map::empty()),
            issued: Ghost(Seq::empty()),
        };
        let n = known.len();
        let mut k: usize = 0;
        while k < n
            invariant
                b.wf(),
                b.thread() == thread_id,
                b.root_uri() == root@,
                b.edges() == Seq::<(i64, i64, EdgeKind)>::empty(),
                k <= n,
                n == known@.len(),
                b.node_ids() == entries_map(known@.take(k as int)),
            decreases n - k,
        {
            let e = &known[k];
            proof {
                assert(known@.take(k + 1).drop_last() =~= known@.take(k as int));
            }
            match b.position(&e.uri) {
                Some(p) => {
                    let u = b.entries[p].uri.clone();
                    let ghost old_ids = b.ids@;
                    let ghost old_entries = b.entries@;
                    b.entries.set(p, NodeEntry { uri: u, id: e.id });
                    b.ids = Ghost(b.ids@.insert(e.uri@, e.id));
                    proof {
                        assert forall|i: int| 0 <= i < b.entries.len() implies b.ids@.contains_key(
                            #[trigger] b.entries[i].uri@,
                        ) && b.ids@[b.entries[i].uri@] == b.entries[i].id by {
                            if i != p {
                                assert(b.entries[i] == old_entries[i]);
                                assert(old_ids.contains_key(b.entries[i].uri@));
                                assert(old_entries[i].uri@ != old_entries[p as int].uri@);
                            }
                        }
                        assert forall|v: Seq<char>| #[trigger] b.ids@.contains_key(v) implies exists|
                            i: int,
                        | 0 <= i < b.entries.len() && b.entries[i].uri@ == v by {
                            if v != e.uri@ {
                                let q = choose|q: int|
                                    0 <= q < b.entries.len() && #[trigger] old_entries[q].uri@ == v;
                                assert(b.entries[q].uri@ == v);
                            } else {
                                assert(b.entries[p as int].uri@ == v);
                            }
                        }
                        assert forall|i: int, j: int|
                            0 <= i < j < b.entries.len() implies b.entries[i].uri@
                            != b.entries[j].uri@ by {
                            assert(b.entries[i].uri@ == old_entries[i].uri@);
                            assert(b.entries[j].uri@ == old_entries[j].uri@);
                        }
                    }
                },
                None => {
                    b.push_node(e.uri.clone(), e.id);
                },
            }
            k = k + 1;
        }
        proof {
            assert(known@.take(n as int) =~= known@);
        }
        b
    }

    /// The id of the thread row this builder fills.
    pub fn thread_id(&self) -> (r: i64)
        ensures
            r == self.thread(),
    {
        self.thread_id
    }

    /// Records that the node for `uri` was stored under `id`. A URI that
    /// already has a node keeps its id.
    pub fn node_stored(&mut self, uri: String, id: i64)
        requires
            old(self).wf(),
        ensures
            final(self).wf(),
            final(self).node_ids() == with_node(old(self).node_ids(), uri@, id),
            final(self).root_uri() == old(self).root_uri(),
            final(self).thread() == old(self).thread(),
            final(self).edges() == old(self).edges(),
            old(self).members().subset_of(final(self).members()),
    {
        if self.position(&uri).is_none() {
            self.push_node(uri, id);
        }
    }

    /// Starts processing `ev`.
    pub fn begin(&self, ev: &PostEvent) -> (r: Progress)
        requires
            self.wf(),
        ensures
            r.wf(),
            r@ == initial_progress(
                self.node_ids(),
                self.root_uri(),
                post_uri_of(ev.repo@, ev.path@),
                event_links(opt_view(ev.quoted), opt_view(ev.reply_parent)),
            ),
    {
        let post = post_uri(ev.repo.as_str(), ev.path.as_str());
        let author = author_of(post.as_str());
        let create_only = self.is_member(&post) && self.node_id(&post).is_none();
        let mut links: Vec<Link> = Vec::new();
        if !create_only {
            if let Some(q) = &ev.quoted {
                links.push(Link { target: q.clone(), kind: EdgeKind::Quote });
            }
            if let Some(p) = &ev.reply_parent {
                links.push(Link { target: p.clone(), kind: EdgeKind::Reply });
            }
        }
        let r = Progress { post, author, links, next: 0, create_only, pending: None };
        proof {
            let quoted = opt_view(ev.quoted);
            let parent = opt_view(ev.reply_parent);
            if !create_only {
                assert(link_views(r.links@).skip(0) =~= event_links(quoted, parent));
            } else {
                assert(link_views(r.links@).skip(0) =~= Seq::<(Seq<char>, EdgeKind)>::empty());
            }
        }
        r
    }

    /// Index, at or after `from`, of the first link whose target is a member.
    fn scan(&self, links: &Vec<Link>, from: usize) -> (r: Option<usize>)
        requires
            self.wf(),
            from <= links.len(),
        ensures
            match first_member(self.members(), link_views(links@).skip(from as int)) {
                Some(j) => r == Some((from + j) as usize),
                None => r is None,
            },
    {
        let mut i = from;
        while i < links.len()
            invariant
                self.wf(),
                from <= i <= links.len(),
                first_member(self.members(), link_views(links@).skip(from as int)) == match first_member(
                    self.members(),
                    link_views(links@).skip(i as int),
                ) {
                    Some(j) => Some((j + i - from) as nat),
                    None => None,
                },
            decreases links.len() - i,
        {
            let ghost s = link_views(links@).skip(i as int);
            if self.is_member(&links[i].target) {
                proof {
                    assert(s[0].0 == links@[i as int].target@);
                }
                return Some(i);
            }
            proof {
                assert(s[0].0 == links@[i as int].target@);
                assert(s.skip(1) =~= link_views(links@).skip(i + 1));
            }
            i = i + 1;
        }
        proof {
            assert(link_views(links@).skip(i as int).len() == 0);
        }
        None
    }

    /// Performs one step of processing: returns the action owed and advances
    /// `pr` past it.
    pub fn next(&mut self, pr: &mut Progress) -> (a: Action)
        requires
            old(self).wf(),
            old(pr).wf(),
        ensures
            final(self).wf(),
            final(pr).wf(),
            (a@, final(pr)@) == transition(old(self).node_ids(), old(self).root_uri(), old(pr)@),
            final(self).node_ids() == old(self).node_ids(),
            final(self).root_uri() == old(self).root_uri(),
            final(self).thread() == old(self).thread(),
            final(self).edges() == match a@ {
                Step::StoreEdge(s, t, k) => old(self).edges().push((s, t, k)),
                _ => old(self).edges(),
            },
    {
        let ghost p0 = pr@;
        if let Some((source, kind)) = pr.pending {
            pr.pending = None;
            let target = self.node_id(&pr.post);
            let known_source = self.has_node_id(source);
            if target.is_some() && known_source {
                proof {
                    assert(pr@ == ProgressModel { pending: None, ..p0 });
                }
                return self.issue_edge(source, target.unwrap(), kind);
            }
            self.stop(pr);
            return Action::Fail(BuildError::NodeNotStored);
        }
        if pr.create_only {
            let known = self.node_id(&pr.post).is_some();
            self.stop(pr);
            if known {
                return Action::Done;
            }
            return match &pr.author {
                Some(a) => Action::StoreNode { uri: pr.post.clone(), author: a.clone() },
                None => Action::Fail(BuildError::MissingAuthor),
            };
        }
        match self.scan(&pr.links, pr.next) {
            None => {
                self.stop(pr);
                Action::Done
            },
            Some(j) => {
                let ghost s = link_views(pr.links@).skip(pr.next as int);
                proof {
                    lemma_first_member(self.members(), s);
                    assert(s[j - pr.next] == link_views(pr.links@)[j as int]);
                    assert(s.skip(j - pr.next + 1) =~= link_views(pr.links@).skip(j + 1));
                }
                let kind = pr.links[j].kind;
                let source = self.node_id(&pr.links[j].target);
                match source {
                    None => {
                        self.stop(pr);
                        Action::Fail(BuildError::MissingSourceNode)
                    },
                    Some(source) => {
                        pr.next = j + 1;
                        match self.node_id(&pr.post) {
                            Some(target) => self.issue_edge(source, target, kind),
                            None => match &pr.author {
                                Some(a) => {
                                    pr.pending = Some((source, kind));
                                    Action::StoreNode { uri: pr.post.clone(), author: a.clone() }
                                },
                                None => {
                                    self.stop(pr);
                                    Action::Fail(BuildError::MissingAuthor)
                                },
                            },
                        }
                    },
                }
            },
        }
    }

    /// Ends the processing of `pr`'s event.
    fn stop(&self, pr: &mut Progress)
        ensures
            final(pr).wf(),
            final(pr)@ == (ProgressModel {
                links: Seq::empty(),
                create_only: false,
                pending: None,
                ..old(pr)@
            }),
    {
        pr.next = pr.links.len();
        pr.create_only = false;
        pr.pending = None;
        proof {
            assert(link_views(pr.links@).skip(pr.next as int) =~= Seq::<
                (Seq<char>, EdgeKind),
            >::empty());
        }
    }

    /// Records and returns an edge between two stored nodes.
    fn issue_edge(&mut self, source: i64, target: i64, kind: EdgeKind) -> (a: Action)
        requires
            old(self).wf(),
            is_node_id(old(self).node_ids(), source),
            is_node_id(old(self).node_ids(), target),
        ensures
            final(self).wf(),
            a@ == Step::StoreEdge(source, target, kind),
            final(self).node_ids() == old(self).node_ids(),
            final(self).root_uri() == old(self).root_uri(),
            final(self).thread() == old(self).thread(),
            final(self).edges() == old(self).edges().push((source, target, kind)),
    {
        let ghost old_issued = self.issued@;
        self.issued = Ghost(self.issued@.push((source, target, kind)));
        proof {
            assert forall|u: Seq<char>| #[trigger] self.ids@.contains_key(u) implies exists|i: int|
                0 <= i < self.entries.len() && self.entries[i].uri@ == u by {
                assert(old(self).ids@.contains_key(u));
                let k = choose|k: int|
                    0 <= k < old(self).entries.len() && old(self).entries[k].uri@ == u;
                assert(self.entries[k] == old(self).entries[k]);
            }
            assert forall|i: int| 0 <= i < self.issued@.len() implies is_node_id(
                self.ids@,
                #[trigger] self.issued@[i].0,
            ) && is_node_id(self.ids@, self.issued@[i].1) by {
                if i < old_issued.len() {
                    assert(self.issued@[i] == old_issued[i]);
                }
            }
        }
        Action::StoreEdge { source, target, kind }
    }
}

/// Storing a node for a URI a second time changes nothing: the URI keeps the
/// id of its first node.
pub proof fn node_creation_is_idempotent(
    ids: Map<Seq<char>, i64>,
    uri: Seq<char>,
    first: i64,
    second: i64,
)
    ensures
        with_node(with_node(ids, uri, first), uri, second) == with_node(ids, uri, first),
        with_node(ids, uri, first)[uri] == if ids.contains_key(uri) {
            ids[uri]
        } else {
            first
        },
{
}

/// A node is asked for only for the post being processed, and only while
/// that post has none: no URI gets a second node.
pub proof fn nodes_are_asked_for_once(ids: Map<Seq<char>, i64>, root: Seq<char>, p: ProgressModel)
    ensures
        transition(ids, root, p).0 matches Step::StoreNode(u, _) ==> u == p.post
            && !ids.contains_key(u),
{
}

/// Recording a stored node never removes a member, so the size of the
/// membership set never decreases; a step of processing leaves it as it is.
pub proof fn membership_never_shrinks(
    ids: Map<Seq<char>, i64>,
    root: Seq<char>,
    uri: Seq<char>,
    id: i64,
)
    requires
        ids.dom().finite(),
    ensures
        members_of(ids, root).subset_of(members_of(with_node(ids, uri, id), root)),
        members_of(ids, root).len() <= members_of(with_node(ids, uri, id), root).len(),
{
    vstd::set_lib::lemma_len_subset(members_of(ids, root), members_of(with_node(ids, uri, id), root));
}

/// Every edge a builder has issued joins two nodes of that builder's thread.
pub proof fn edges_join_thread_nodes(b: &ThreadBuilder)
    requires
        b.wf(),
    ensures
        edges_within(b.node_ids(), b.edges()),
{
}

/// An event none of whose references is a member produces no node and no
/// edge: its processing ends at the first step. (A post that is itself a
/// member without a node, the root, is the one exception: it gets its node.)
pub proof fn unseen_references_are_dropped(
    ids: Map<Seq<char>, i64>,
    root: Seq<char>,
    post: Seq<char>,
    links: Seq<(Seq<char>, EdgeKind)>,
)
    requires
        forall|k: int| 0 <= k < links.len() ==> !members_of(ids, root).contains(#[trigger] links[k].0),
        !(members_of(ids, root).contains(post) && !ids.contains_key(post)),
    ensures
        transition(ids, root, initial_progress(ids, root, post, links)).0 == Step::Done,
{
    lemma_first_member(members_of(ids, root), links);
}

/// The node ids after recording each stored node of `stored`, in order.
pub open spec fn with_nodes(ids: Map<Seq<char>, i64>, stored: Seq<(Seq<char>, i64)>) -> Map<
    Seq<char>,
    i64,
>
    decreases stored.len(),
{
    if stored.len() == 0 {
        ids
    } else {
        let (u, id) = stored.last();
        with_node(with_nodes(ids, stored.drop_last()), u, id)
    }
}

/// Over any sequence of recorded nodes, the membership set at an earlier
/// point is contained in, and no larger than, the set at a later point.
pub proof fn membership_never_shrinks_along(
    ids: Map<Seq<char>, i64>,
    root: Seq<char>,
    stored: Seq<(Seq<char>, i64)>,
    i: int,
    j: int,
)
    requires
        ids.dom().finite(),
        0 <= i <= j <= stored.len(),
    ensures
        members_of(with_nodes(ids, stored.take(i)), root).subset_of(
            members_of(with_nodes(ids, stored.take(j)), root),
        ),
        members_of(with_nodes(ids, stored.take(i)), root).len() <= members_of(
            with_nodes(ids, stored.take(j)),
            root,
        ).len(),
    decreases j - i,
{
    lemma_with_nodes_finite(ids, stored.take(j));
    if i < j {
        membership_never_shrinks_along(ids, root, stored, i, j - 1);
        assert(stored.take(j).drop_last() =~= stored.take(j - 1));
        let (u, id) = stored.take(j).last();
        lemma_with_nodes_finite(ids, stored.take(j - 1));
        membership_never_shrinks(with_nodes(ids, stored.take(j - 1)), root, u, id);
    }
    vstd::set_lib::lemma_len_subset(
        members_of(with_nodes(ids, stored.take(i)), root),
        members_of(with_nodes(ids, stored.take(j)), root),
    );
}

proof fn lemma_with_nodes_finite(ids: Map<Seq<char>, i64>, stored: Seq<(Seq<char>, i64)>)
    requires
        ids.dom().finite(),
    ensures
        with_nodes(ids, stored).dom().finite(),
    decreases stored.len(),
{
    if stored.len() > 0 {
        lemma_with_nodes_finite(ids, stored.drop_last());
    }
}

} // verus!
