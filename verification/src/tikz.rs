use vstd::prelude::*;
use vstd::string::StringExecFns;

use crate::error::Error;
use crate::graph::{
    dependents, edge_views, graph_of, lemma_counts, lemma_edges_join_nodes, node_views,
    DependencyEdge, DependencyGraph, DependencyNode, EdgeView, GraphView, NodeView,
};
use crate::text::{
    decimal, escape_str, escaped, join_texts, joined, lemma_escaped_quote, lemma_flat_map_take,
    lemma_occurs_chain, lemma_occurs_in_flat_map, lemma_occurs_in_itself, lemma_occurs_in_joined,
    lemma_occurs_within, occurs_in, push_decimal, texts,
};
use crate::token::{Layer, Token};

verus! {

/// What opens a diagram: the document's preamble and the start of the row of
/// words.
pub const TIKZ_HEAD: &'static str =
    "\\documentclass{standalone}\n\n\\usepackage{tikz-dependency}\n\n\\begin{document}\n\n\\begin{dependency}\n\\begin{deptext}";

/// What stands between two words of the row.
pub const TIKZ_SEPARATOR: &'static str = " & ";

/// What ends the row of words.
pub const TIKZ_ROW_END: &'static str = "\\\\\n\\end{deptext}\n";

/// What closes a diagram.
pub const TIKZ_TAIL: &'static str = "\\end{dependency}\n\n\\end{document}";

/// The word that a node puts into the row: its escaped form, underlined where
/// the node is highlighted.
pub open spec fn tikz_entry(node: NodeView) -> Seq<char> {
    if node.marked {
        "\\underline{"@ + escaped(node.token.form@) + "}"@
    } else {
        escaped(node.token.form@)
    }
}

/// The words of a run of nodes.
pub open spec fn tikz_entries(nodes: Seq<NodeView>) -> Seq<Seq<char>> {
    nodes.map_values(|n: NodeView| tikz_entry(n))
}

/// The command that draws an edge. It counts the words from 1.
pub open spec fn tikz_edge_line(edge: EdgeView) -> Seq<char> {
    "\\depedge{"@ + decimal(edge.source + 1) + "}{"@ + decimal(edge.target + 1) + "}{"@ + escaped(
        edge.relation,
    ) + "}\n"@
}

/// The commands of a run of edges, one after the other.
pub open spec fn tikz_edge_lines(edges: Seq<EdgeView>) -> Seq<char> {
    edges.flat_map(|e: EdgeView| tikz_edge_line(e))
}

/// The diagram of a graph: the opening, the words of all nodes in index order
/// with the separator between them, the end of the row, the edge commands in
/// the order in which the edges were made, the closing.
pub open spec fn tikz_text(g: GraphView) -> Seq<char> {
    TIKZ_HEAD@ + joined(tikz_entries(g.nodes), TIKZ_SEPARATOR@) + TIKZ_ROW_END@ + tikz_edge_lines(
        g.edges,
    ) + TIKZ_TAIL@
}

/// The diagram of the graph of a sentence is made of a row with one word for
/// each token, the words joined by the separator, and after it one command for
/// each token that has a governor; a command names the governor and the
/// dependent by their positions in the sentence, counted from 1.
pub proof fn lemma_tikz_layout(tokens: Seq<Token>, layer: Layer)
    ensures
        ({
            let g = graph_of(tokens, layer);
            let words = tikz_entries(g.nodes);
            let commands = g.edges.map_values(|e: EdgeView| tikz_edge_line(e));
            &&& words.len() == tokens.len()
            &&& commands.len() == dependents(tokens, layer)
            &&& tikz_text(g) == TIKZ_HEAD@ + joined(words, TIKZ_SEPARATOR@) + TIKZ_ROW_END@
                + commands.flatten() + TIKZ_TAIL@
            &&& forall|j: int|
                0 <= j < commands.len() ==> #[trigger] commands[j] == "\\depedge{"@ + decimal(
                    g.edges[j].source + 1,
                ) + "}{"@ + decimal(g.edges[j].target + 1) + "}{"@ + escaped(g.edges[j].relation)
                    + "}\n"@
        }),
{
    lemma_counts(tokens, layer);
}

/// The diagram of a graph holds the word of each of its nodes, and with it the
/// escaped form of the node.
pub proof fn lemma_tikz_shows_node(g: GraphView, i: int)
    requires
        0 <= i < g.nodes.len(),
    ensures
        occurs_in(tikz_entry(g.nodes[i]), tikz_text(g)),
        occurs_in(escaped(g.nodes[i].token.form@), tikz_text(g)),
{
    let node = g.nodes[i];
    let word = tikz_entry(node);
    let row = joined(tikz_entries(g.nodes), TIKZ_SEPARATOR@);
    lemma_occurs_in_joined(tikz_entries(g.nodes), TIKZ_SEPARATOR@, i);
    lemma_occurs_within(word, TIKZ_HEAD@, row, TIKZ_ROW_END@ + tikz_edge_lines(g.edges) + TIKZ_TAIL@);
    assert(TIKZ_HEAD@ + row + (TIKZ_ROW_END@ + tikz_edge_lines(g.edges) + TIKZ_TAIL@) =~= tikz_text(
        g,
    ));
    let label = escaped(node.token.form@);
    lemma_occurs_in_itself(label);
    if node.marked {
        lemma_occurs_within(label, "\\underline{"@, label, "}"@);
    }
    lemma_occurs_chain(label, word, tikz_text(g));
}

/// The diagram of a graph holds the command of each of its edges, and with it
/// the escaped relation of the edge.
pub proof fn lemma_tikz_shows_edge(g: GraphView, j: int)
    requires
        0 <= j < g.edges.len(),
    ensures
        occurs_in(tikz_edge_line(g.edges[j]), tikz_text(g)),
        occurs_in(escaped(g.edges[j].relation), tikz_text(g)),
{
    let edge = g.edges[j];
    let line = tikz_edge_line(edge);
    lemma_occurs_in_flat_map(g.edges, |e: EdgeView| tikz_edge_line(e), j);
    lemma_occurs_within(
        line,
        TIKZ_HEAD@ + joined(tikz_entries(g.nodes), TIKZ_SEPARATOR@) + TIKZ_ROW_END@,
        tikz_edge_lines(g.edges),
        TIKZ_TAIL@,
    );
    let label = escaped(edge.relation);
    lemma_occurs_in_itself(label);
    lemma_occurs_within(
        label,
        "\\depedge{"@ + decimal(edge.source + 1) + "}{"@ + decimal(edge.target + 1) + "}{"@,
        label,
        "}\n"@,
    );
    lemma_occurs_chain(label, line, tikz_text(g));
}

/// Where the form of a node holds a double quote, the diagram of the graph
/// holds the form with a backslash before that quote.
pub proof fn lemma_tikz_escapes_quote(g: GraphView, i: int, before: Seq<char>, after: Seq<char>)
    requires
        0 <= i < g.nodes.len(),
        g.nodes[i].token.form@ == before + seq!['"'] + after,
    ensures
        occurs_in(escaped(before) + seq!['\\', '"'] + escaped(after), tikz_text(g)),
{
    lemma_tikz_shows_node(g, i);
    lemma_escaped_quote(before, after);
}

/// The word that `node` puts into the row.
fn entry(node: &DependencyNode) -> (word: String)
    ensures
        word@ == tikz_entry(node@),
{
    let form = escape_str(node.form());
    if node.marked() {
        let mut word = String::from_str("\\underline{");
        word.append(form.as_str());
        word.append("}");
        word
    } else {
        form
    }
}

/// Appends the command that draws `edge` to `out`.
fn push_edge(out: &mut String, edge: &DependencyEdge)
    requires
        edge@.source < usize::MAX,
        edge@.target < usize::MAX,
    ensures
        final(out)@ == old(out)@ + tikz_edge_line(edge@),
{
    out.append("\\depedge{");
    push_decimal(out, edge.source() + 1);
    out.append("}{");
    push_decimal(out, edge.target() + 1);
    out.append("}{");
    let label = escape_str(edge.relation());
    out.append(label.as_str());
    out.append("}\n");
    assert(out@ =~= old(out)@ + tikz_edge_line(edge@));
}

/// Graphs that can be typeset as a TikZ dependency diagram.
pub trait Tikz {
    fn tikz(&self) -> Result<String, Error>;
}

impl Tikz for DependencyGraph {
    /// The diagram of the graph. It is put together in memory, which cannot
    /// fail, so the result is always `Ok`.
    fn tikz(&self) -> (r: Result<String, Error>)
        ensures
            r matches Ok(text) && text@ == tikz_text(self@),
    {
        let nodes = self.nodes();
        let mut words: Vec<String> = Vec::new();
        let mut i: usize = 0;
        while i < nodes.len()
            invariant
                i <= nodes.len(),
                texts(words@) == tikz_entries(node_views(nodes@).take(i as int)),
            decreases nodes.len() - i,
        {
            let word = entry(&nodes[i]);
            proof {
                assert(node_views(nodes@).take(i + 1) =~= node_views(nodes@).take(i as int).push(
                    nodes@[i as int]@,
                ));
                assert(texts(words@.push(word)) =~= texts(words@).push(word@));
                assert(tikz_entries(node_views(nodes@).take(i as int).push(nodes@[i as int]@))
                    =~= tikz_entries(node_views(nodes@).take(i as int)).push(
                    tikz_entry(nodes@[i as int]@),
                ));
            }
            words.push(word);
            i += 1;
        }
        assert(node_views(nodes@).take(nodes@.len() as int) =~= node_views(nodes@));
        let mut out = String::from_str(TIKZ_HEAD);
        let row = join_texts(&words, TIKZ_SEPARATOR);
        out.append(row.as_str());
        out.append(TIKZ_ROW_END);
        let edges = self.edges();
        let ghost edge_line = |e: EdgeView| tikz_edge_line(e);
        let ghost start = out@;
        proof {
            assert(edge_views(edges@).take(0).flat_map(edge_line) =~= Seq::<char>::empty());
            lemma_edges_join_nodes(self@.tokens(), self@.layer, self@.tokens().len() as int);
        }
        let mut i: usize = 0;
        while i < edges.len()
            invariant
                i <= edges.len(),
                edge_line == |e: EdgeView| tikz_edge_line(e),
                forall|j: int|
                    0 <= j < edges@.len() ==> (#[trigger] edge_views(edges@)[j]).source
                        < usize::MAX && edge_views(edges@)[j].target < usize::MAX,
                out@ == start + edge_views(edges@).take(i as int).flat_map(edge_line),
            decreases edges.len() - i,
        {
            proof {
                lemma_flat_map_take(edge_views(edges@), edge_line, i as int);
                assert(edge_views(edges@)[i as int] == edges@[i as int]@);
            }
            push_edge(&mut out, &edges[i]);
            i += 1;
        }
        assert(edge_views(edges@).take(edges@.len() as int) =~= edge_views(edges@));
        out.append(TIKZ_TAIL);
        Ok(out)
    }
}

} // verus!
