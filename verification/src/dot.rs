use vstd::prelude::*;
use vstd::string::StringExecFns;

use crate::error::Error;
use crate::graph::{
    edge_views, node_views, DependencyEdge, DependencyGraph, DependencyNode, EdgeView, GraphView,
    NodeView,
};
use crate::text::{
    decimal, escape_str, escaped, lemma_escaped_quote, lemma_flat_map_take, lemma_occurs_chain,
    lemma_occurs_in_flat_map, lemma_occurs_in_itself, lemma_occurs_within, occurs_in, push_decimal,
};

verus! {

/// What opens a graph description: the graph's name, the character set, and
/// the default style of nodes and of edges.
pub const DOT_HEADER: &'static str =
    "digraph deptree {\ngraph [charset = \"UTF-8\"]\nnode [shape=plaintext, height=0, width=0, fontsize=12, fontname=\"Helvetica\"]\nedge [color=\"#4b0082\", fontsize=\"8\", fontname=\"Courier New\"]\n";

/// What closes a graph description.
pub const DOT_FOOTER: &'static str = "}";

/// What ends the statement of a node that is not highlighted.
pub const DOT_PLAIN_END: &'static str = "\"];\n";

/// What ends the statement of a highlighted node.
pub const DOT_MARKED_END: &'static str = "\", fontcolor=\"firebrick3\"];\n";

/// The statement of a node: its identifier, which is `n` and its offset, and
/// its escaped form as the label.
pub open spec fn dot_node_line(node: NodeView) -> Seq<char> {
    "n"@ + decimal(node.offset) + "[label=\""@ + escaped(node.token.form@) + if node.marked {
        DOT_MARKED_END@
    } else {
        DOT_PLAIN_END@
    }
}

/// The statement of an edge: the identifiers of its two ends and its escaped
/// relation as the label.
pub open spec fn dot_edge_line(edge: EdgeView) -> Seq<char> {
    "n"@ + decimal(edge.source) + " -> n"@ + decimal(edge.target) + "[label=\""@ + escaped(
        edge.relation,
    ) + DOT_PLAIN_END@
}

/// The statements of a run of nodes, one after the other.
pub open spec fn dot_node_lines(nodes: Seq<NodeView>) -> Seq<char> {
    nodes.flat_map(|n: NodeView| dot_node_line(n))
}

/// The statements of a run of edges, one after the other.
pub open spec fn dot_edge_lines(edges: Seq<EdgeView>) -> Seq<char> {
    edges.flat_map(|e: EdgeView| dot_edge_line(e))
}

/// The description of a graph: the header, the node statements in index order,
/// the edge statements in the order in which the edges were made, the footer.
pub open spec fn dot_text(g: GraphView) -> Seq<char> {
    DOT_HEADER@ + dot_node_lines(g.nodes) + dot_edge_lines(g.edges) + DOT_FOOTER@
}

/// The description of a graph holds the statement of each of its nodes, and
/// with it the escaped form of the node.
pub proof fn lemma_dot_shows_node(g: GraphView, i: int)
    requires
        0 <= i < g.nodes.len(),
    ensures
        occurs_in(dot_node_line(g.nodes[i]), dot_text(g)),
        occurs_in(escaped(g.nodes[i].token.form@), dot_text(g)),
{
    let node = g.nodes[i];
    let line = dot_node_line(node);
    lemma_occurs_in_flat_map(g.nodes, |n: NodeView| dot_node_line(n), i);
    lemma_occurs_within(line, DOT_HEADER@, dot_node_lines(g.nodes), dot_edge_lines(g.edges) + DOT_FOOTER@);
    assert(DOT_HEADER@ + dot_node_lines(g.nodes) + (dot_edge_lines(g.edges) + DOT_FOOTER@) =~= dot_text(g));
    let label = escaped(node.token.form@);
    let end = if node.marked {
        DOT_MARKED_END@
    } else {
        DOT_PLAIN_END@
    };
    lemma_occurs_in_itself(label);
    lemma_occurs_within(label, "n"@ + decimal(node.offset) + "[label=\""@, label, end);
    lemma_occurs_chain(label, line, dot_text(g));
}

/// The description of a graph holds the statement of each of its edges, and
/// with it the escaped relation of the edge.
pub proof fn lemma_dot_shows_edge(g: GraphView, j: int)
    requires
        0 <= j < g.edges.len(),
    ensures
        occurs_in(dot_edge_line(g.edges[j]), dot_text(g)),
        occurs_in(escaped(g.edges[j].relation), dot_text(g)),
{
    let edge = g.edges[j];
    let line = dot_edge_line(edge);
    lemma_occurs_in_flat_map(g.edges, |e: EdgeView| dot_edge_line(e), j);
    lemma_occurs_within(line, DOT_HEADER@ + dot_node_lines(g.nodes), dot_edge_lines(g.edges), DOT_FOOTER@);
    let label = escaped(edge.relation);
    lemma_occurs_in_itself(label);
    lemma_occurs_within(
        label,
        "n"@ + decimal(edge.source) + " -> n"@ + decimal(edge.target) + "[label=\""@,
        label,
        DOT_PLAIN_END@,
    );
    lemma_occurs_chain(label, line, dot_text(g));
}

/// Where the form of a node holds a double quote, the description of the graph
/// holds the form with a backslash before that quote.
pub proof fn lemma_dot_escapes_quote(g: GraphView, i: int, before: Seq<char>, after: Seq<char>)
    requires
        0 <= i < g.nodes.len(),
        g.nodes[i].token.form@ == before + seq!['"'] + after,
    ensures
        occurs_in(escaped(before) + seq!['\\', '"'] + escaped(after), dot_text(g)),
{
    lemma_dot_shows_node(g, i);
    lemma_escaped_quote(before, after);
}

/// Appends the statement of `node` to `out`.
pub fn push_dot_node(out: &mut String, node: &DependencyNode)
    ensures
        final(out)@ == old(out)@ + dot_node_line(node@),
{
    out.append("n");
    push_decimal(out, node.offset());
    out.append("[label=\"");
    let label = escape_str(node.form());
    out.append(label.as_str());
    if node.marked() {
        out.append(DOT_MARKED_END);
    } else {
        out.append(DOT_PLAIN_END);
    }
    assert(out@ =~= old(out)@ + dot_node_line(node@));
}

/// Appends the statement of `edge` to `out`.
pub fn push_dot_edge(out: &mut String, edge: &DependencyEdge)
    ensures
        final(out)@ == old(out)@ + dot_edge_line(edge@),
{
    out.append("n");
    push_decimal(out, edge.source());
    out.append(" -> n");
    push_decimal(out, edge.target());
    out.append("[label=\"");
    let label = escape_str(edge.relation());
    out.append(label.as_str());
    out.append(DOT_PLAIN_END);
    assert(out@ =~= old(out)@ + dot_edge_line(edge@));
}

/// Graphs that can be written down in the DOT graph description language.
pub trait Dot {
    fn dot(&self) -> Result<String, Error>;
}

impl Dot for DependencyGraph {
    /// The description of the graph. It is put together in memory, which
    /// cannot fail, so the result is always `Ok`.
    fn dot(&self) -> (r: Result<String, Error>)
        ensures
            r matches Ok(text) && text@ == dot_text(self@),
    {
        let mut out = String::from_str(DOT_HEADER);
        let nodes = self.nodes();
        let ghost node_line = |n: NodeView| dot_node_line(n);
        assert(node_views(nodes@).take(0).flat_map(node_line) =~= Seq::<char>::empty());
        let mut i: usize = 0;
        while i < nodes.len()
            invariant
                i <= nodes.len(),
                node_line == |n: NodeView| dot_node_line(n),
                out@ == DOT_HEADER@ + node_views(nodes@).take(i as int).flat_map(node_line),
            decreases nodes.len() - i,
        {
            proof {
                lemma_flat_map_take(node_views(nodes@), node_line, i as int);
            }
            push_dot_node(&mut out, &nodes[i]);
            i += 1;
        }
        assert(node_views(nodes@).take(nodes@.len() as int) =~= node_views(nodes@));
        let edges = self.edges();
        let ghost edge_line = |e: EdgeView| dot_edge_line(e);
        assert(edge_views(edges@).take(0).flat_map(edge_line) =~= Seq::<char>::empty());
        let mut i: usize = 0;
        while i < edges.len()
            invariant
                i <= edges.len(),
                edge_line == |e: EdgeView| dot_edge_line(e),
                out@ == DOT_HEADER@ + dot_node_lines(self@.nodes) + edge_views(edges@).take(
                    i as int,
                ).flat_map(edge_line),
            decreases edges.len() - i,
        {
            proof {
                lemma_flat_map_take(edge_views(edges@), edge_line, i as int);
            }
            push_dot_edge(&mut out, &edges[i]);
            i += 1;
        }
        assert(edge_views(edges@).take(edges@.len() as int) =~= edge_views(edges@));
        out.append(DOT_FOOTER);
        Ok(out)
    }
}

} // verus!
