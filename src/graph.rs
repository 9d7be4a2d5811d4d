//! A stored thread as nodes and edges, and its textual directed-graph
//! description.
use crate::event::{opt_view, EdgeKind, Timestamp};
use vstd::prelude::*;

verus! {

/// One stored post of a thread.
pub struct GraphNode {
    pub id: i64,
    pub uri: String,
    pub did: String,
    pub also_known_as: Option<String>,
    pub created_at: Timestamp,
    pub text: String,
}

/// One stored relation between two nodes of a thread.
pub struct GraphEdge {
    pub id: i64,
    pub source: i64,
    pub target: i64,
    pub kind: EdgeKind,
}

/// The nodes and edges of one thread.
pub struct Graph {
    pub nodes: Vec<GraphNode>,
    pub edges: Vec<GraphEdge>,
}

/// The decimal digit `d`.
pub open spec fn digit(d: nat) -> char {
    seq!['0', '1', '2', '3', '4', '5', '6', '7', '8', '9'][d as int]
}

/// The decimal digits of `n`, most significant first.
pub open spec fn digits(n: nat) -> Seq<char>
    decreases n,
{
    if n < 10 {
        seq![digit(n)]
    } else {
        digits(n / 10).push(digit(n % 10))
    }
}

/// `n` written in decimal, with a leading `-` when negative.
pub open spec fn decimal(n: int) -> Seq<char> {
    if n < 0 {
        seq!['-'] + digits((-n) as nat)
    } else {
        digits(n as nat)
    }
}

/// Relies on the `Display` of `i64` (through `to_string`): decimal digits,
/// with a leading `-` for a negative number.
#[verifier::external_body]
fn decimal_text(n: i64) -> (r: String)
    ensures
        r@ == decimal(n as int),
{
    n.to_string()
}

/// chrono's rendering of an instant as month abbreviation, day and time of
/// day, or `None` when chrono cannot represent the instant.
pub uninterp spec fn time_label(secs: i64, nanos: u32) -> Option<Seq<char>>;

/// Relies on chrono's `DateTime::<Utc>::from_timestamp` and its
/// `format("%b %-d, %T")` (as in `Mar 5, 14:03:09`); the text depends on the
/// instant alone.
#[verifier::external_body]
fn format_time(secs: i64, nanos: u32) -> (r: Option<String>)
    ensures
        opt_view(r) == time_label(secs, nanos),
{
    match chrono::DateTime::from_timestamp(secs, nanos) {
        Some(t) => Some(t.format("%b %-d, %T").to_string()),
        None => None,
    }
}

/// The scheme prefix stripped from handles.
pub open spec fn handle_scheme() -> Seq<char> {
    "at://"@
}

/// What a node is labelled with: its handle without the `at://` prefix, or,
/// with no handle, its author identifier.
pub open spec fn label_of(also_known_as: Option<Seq<char>>, did: Seq<char>) -> Seq<char> {
    match also_known_as {
        Some(h) => if h.len() >= 5 && h.take(5) == handle_scheme() {
            h.skip(5)
        } else {
            h
        },
        None => did,
    }
}

/// The label of a node with handle `also_known_as` and author `did`.
pub fn node_label(also_known_as: &Option<String>, did: &String) -> (r: String)
    ensures
        r@ == label_of(opt_view(*also_known_as), did@),
{
    match also_known_as {
        Some(h) => {
            let len = h.as_str().unicode_len();
            if len >= 5 {
                let head = h.as_str().substring_char(0, 5).to_string();
                if head == String::from_str("at://") {
                    return h.as_str().substring_char(5, len).to_string();
                }
            }
            h.clone()
        },
        None => did.clone(),
    }
}

pub open spec fn node_open() -> Seq<char> {
    "\t\""@
}

pub open spec fn node_label_open() -> Seq<char> {
    "\" [label=<\n\t\t<font face=\"Sans-Serif\">"@
}

pub open spec fn node_time_open() -> Seq<char> {
    "</font><br/>\n\t\t<font face=\"Sans-Serif\" color=\"#37474F\">"@
}

pub open spec fn node_close() -> Seq<char> {
    "</font>\n\t>, shape=rectangle, fixedsize=true, width=2.7, height=0.75]\n"@
}

pub open spec fn edge_arrow() -> Seq<char> {
    "\" -> \""@
}

pub open spec fn edge_close() -> Seq<char> {
    "\"\n"@
}

pub open spec fn graph_open() -> Seq<char> {
    "digraph tree {\n"@
}

pub open spec fn graph_close() -> Seq<char> {
    "}\n"@
}

/// The statement for node `id`, with its label and its time line; every node
/// is a rectangle of the same fixed size.
pub open spec fn node_statement_of(id: int, label: Seq<char>, time: Seq<char>) -> Seq<char> {
    node_open() + decimal(id) + node_label_open() + label + node_time_open() + time + node_close()
}

/// The statement for an arrow from `source` to `target`.
pub open spec fn edge_statement_of(source: int, target: int) -> Seq<char> {
    node_open() + decimal(source) + edge_arrow() + decimal(target) + edge_close()
}

/// The node statements, in order; `None` when a creation time cannot be
/// rendered.
pub open spec fn nodes_text(nodes: Seq<GraphNode>) -> Option<Seq<char>>
    decreases nodes.len(),
{
    if nodes.len() == 0 {
        Some(Seq::empty())
    } else {
        let n = nodes.last();
        match (nodes_text(nodes.drop_last()), time_label(n.created_at.secs, n.created_at.nanos)) {
            (Some(before), Some(t)) => Some(
                before + node_statement_of(
                    n.id as int,
                    label_of(opt_view(n.also_known_as), n.did@),
                    t,
                ),
            ),
            _ => None,
        }
    }
}

/// The edge statements, in order.
pub open spec fn edges_text(edges: Seq<GraphEdge>) -> Seq<char>
    decreases edges.len(),
{
    if edges.len() == 0 {
        Seq::empty()
    } else {
        edges_text(edges.drop_last()) + edge_statement_of(
            edges.last().source as int,
            edges.last().target as int,
        )
    }
}

/// The description of a graph: one statement per node, then one per edge.
pub open spec fn graph_text(nodes: Seq<GraphNode>, edges: Seq<GraphEdge>) -> Option<Seq<char>> {
    match nodes_text(nodes) {
        Some(t) => Some(graph_open() + t + edges_text(edges) + graph_close()),
        None => None,
    }
}

/// The statement for node `id`, given its label and rendered creation time.
pub fn node_statement(id: i64, label: &str, time: &str) -> (r: String)
    ensures
        r@ == node_statement_of(id as int, label@, time@),
{
    let mut s = String::from_str("\t\"");
    let idt = decimal_text(id);
    s.append(idt.as_str());
    s.append("\" [label=<\n\t\t<font face=\"Sans-Serif\">");
    s.append(label);
    s.append("</font><br/>\n\t\t<font face=\"Sans-Serif\" color=\"#37474F\">");
    s.append(time);
    s.append("</font>\n\t>, shape=rectangle, fixedsize=true, width=2.7, height=0.75]\n");
    s
}

/// The statement for an arrow from node `source` to node `target`.
pub fn edge_statement(source: i64, target: i64) -> (r: String)
    ensures
        r@ == edge_statement_of(source as int, target as int),
{
    let mut s = String::from_str("\t\"");
    let a = decimal_text(source);
    s.append(a.as_str());
    s.append("\" -> \"");
    let b = decimal_text(target);
    s.append(b.as_str());
    s.append("\"\n");
    s
}

/// The textual description of `g`, or `None` when a node's creation time
/// cannot be rendered.
pub fn render_graph(g: &Graph) -> (r: Option<String>)
    ensures
        opt_view(r) == graph_text(g.nodes@, g.edges@),
{
    let mut body = String::new();
    let mut i: usize = 0;
    while i < g.nodes.len()
        invariant
            i <= g.nodes.len(),
            nodes_text(g.nodes@.take(i as int)) == Some(body@),
        decreases g.nodes.len() - i,
    {
        let n = &g.nodes[i];
        proof {
            assert(g.nodes@.take(i + 1).drop_last() =~= g.nodes@.take(i as int));
        }
        match format_time(n.created_at.secs, n.created_at.nanos) {
            Some(t) => {
                let label = node_label(&n.also_known_as, &n.did);
                let stmt = node_statement(n.id, label.as_str(), t.as_str());
                body.append(stmt.as_str());
            },
            None => {
                proof {
                    lemma_nodes_text_none(g.nodes@, i + 1);
                }
                return None;
            },
        }
        i = i + 1;
    }
    proof {
        assert(g.nodes@.take(i as int) =~= g.nodes@);
    }
    let mut out = String::from_str("digraph tree {\n");
    out.append(body.as_str());
    let mut j: usize = 0;
    while j < g.edges.len()
        invariant
            j <= g.edges.len(),
            out@ == graph_open() + body@ + edges_text(g.edges@.take(j as int)),
        decreases g.edges.len() - j,
    {
        proof {
            assert(g.edges@.take(j + 1).drop_last() =~= g.edges@.take(j as int));
        }
        let stmt = edge_statement(g.edges[j].source, g.edges[j].target);
        out.append(stmt.as_str());
        j = j + 1;
    }
    proof {
        assert(g.edges@.take(j as int) =~= g.edges@);
    }
    out.append("}\n");
    Some(out)
}

/// Once a prefix of the nodes cannot be described, no longer prefix can.
proof fn lemma_nodes_text_none(nodes: Seq<GraphNode>, k: int)
    requires
        0 <= k <= nodes.len(),
        nodes_text(nodes.take(k)) is None,
    ensures
        nodes_text(nodes) is None,
    decreases nodes.len() - k,
{
    if k < nodes.len() {
        assert(nodes.take(k + 1).drop_last() =~= nodes.take(k));
        lemma_nodes_text_none(nodes, k + 1);
    } else {
        assert(nodes.take(k) =~= nodes);
    }
}

} // verus!
