use vstd::prelude::*;

use vstd::string::StringExecFns;

use crate::error::Error;
use crate::text::joined;
use crate::token::{Layer, Token};

verus! {

/// A node of a dependency graph: one token of the sentence and its place in it.
#[derive(Debug, PartialEq, Eq)]
pub struct DependencyNode {
    token: Token,
    offset: usize,
    marked: bool,
}

/// An edge of a dependency graph, from a governor to one of its dependents.
#[derive(Debug, PartialEq, Eq)]
pub struct DependencyEdge {
    source: usize,
    target: usize,
    relation: String,
}

/// The dependency graph of one sentence in one annotation layer.
///
/// Nodes and edges live in two arrays and are addressed by their index. A
/// graph is made by [`DependencyGraph::build`] and never changes afterwards.
#[derive(Debug, PartialEq, Eq)]
pub struct DependencyGraph {
    layer: Layer,
    nodes: Vec<DependencyNode>,
    edges: Vec<DependencyEdge>,
}

/// What a node is: its token, the zero-based offset of the token in the
/// sentence, and whether it is to be highlighted.
pub struct NodeView {
    pub token: Token,
    pub offset: nat,
    pub marked: bool,
}

/// What an edge is: the indices of the governor and the dependent, and the
/// label of the relation.
pub struct EdgeView {
    pub source: nat,
    pub target: nat,
    pub relation: Seq<char>,
}

/// What a graph is: its layer, its nodes in index order and its edges in the
/// order in which they were made.
pub struct GraphView {
    pub layer: Layer,
    pub nodes: Seq<NodeView>,
    pub edges: Seq<EdgeView>,
}

impl View for DependencyNode {
    type V = NodeView;

    closed spec fn view(&self) -> NodeView {
        NodeView { token: self.token, offset: self.offset as nat, marked: self.marked }
    }
}

impl View for DependencyEdge {
    type V = EdgeView;

    closed spec fn view(&self) -> EdgeView {
        EdgeView {
            source: self.source as nat,
            target: self.target as nat,
            relation: self.relation@,
        }
    }
}

impl View for DependencyGraph {
    type V = GraphView;

    closed spec fn view(&self) -> GraphView {
        GraphView {
            layer: self.layer,
            nodes: node_views(self.nodes@),
            edges: edge_views(self.edges@),
        }
    }
}

/// The views of a run of nodes.
pub open spec fn node_views(nodes: Seq<DependencyNode>) -> Seq<NodeView> {
    nodes.map_values(|n: DependencyNode| n@)
}

/// The views of a run of edges.
pub open spec fn edge_views(edges: Seq<DependencyEdge>) -> Seq<EdgeView> {
    edges.map_values(|e: DependencyEdge| e@)
}

/// Every head that is filled in for `layer` names the root or a token of the
/// sentence.
pub open spec fn heads_in_range(tokens: Seq<Token>, layer: Layer) -> bool {
    forall|i: int|
        0 <= i < tokens.len() ==> (#[trigger] tokens[i].head_in(layer) matches Some(h) ==> h
            <= tokens.len())
}

/// No token of the sentence lacks, for `layer`, a head or a needed relation.
pub open spec fn complete(tokens: Seq<Token>, layer: Layer) -> bool {
    forall|i: int| 0 <= i < tokens.len() ==> (#[trigger] tokens[i].fault(layer)) is None
}

/// The token at `at` is the first of the sentence that cannot enter a graph of
/// `layer`, and `error` says why.
pub open spec fn first_fault(tokens: Seq<Token>, layer: Layer, at: int, error: Error) -> bool {
    &&& 0 <= at < tokens.len()
    &&& tokens[at].fault(layer) == Some(error)
    &&& forall|j: int| 0 <= j < at ==> (#[trigger] tokens[j].fault(layer)) is None
}

/// The node that stands for `token` at offset `offset`.
pub open spec fn node_of(token: Token, offset: int) -> NodeView {
    NodeView { token, offset: offset as nat, marked: token.is_marked() }
}

/// The edge that leads from the governor of `token` in `layer` to `token`,
/// which stands at offset `offset`.
pub open spec fn edge_into(token: Token, layer: Layer, offset: int) -> EdgeView {
    EdgeView {
        source: (token.head_in(layer).unwrap() - 1) as nat,
        target: offset as nat,
        relation: token.relation_in(layer).unwrap(),
    }
}

/// The edges into the first `upto` tokens of the sentence, in token order: one
/// for each token that has a governor in `layer`, none for a root.
pub open spec fn edges_upto(tokens: Seq<Token>, layer: Layer, upto: int) -> Seq<EdgeView>
    decreases upto,
{
    if upto <= 0 {
        Seq::empty()
    } else if tokens[upto - 1].is_dependent(layer) {
        edges_upto(tokens, layer, upto - 1).push(edge_into(tokens[upto - 1], layer, upto - 1))
    } else {
        edges_upto(tokens, layer, upto - 1)
    }
}

/// The dependency graph of a sentence in `layer`: a node for each token, in
/// token order, and an edge into each token that has a governor.
pub open spec fn graph_of(tokens: Seq<Token>, layer: Layer) -> GraphView {
    GraphView {
        layer,
        nodes: Seq::new(tokens.len(), |i: int| node_of(tokens[i], i)),
        edges: edges_upto(tokens, layer, tokens.len() as int),
    }
}

impl GraphView {
    /// The tokens of the graph, in node order.
    pub open spec fn tokens(self) -> Seq<Token> {
        self.nodes.map_values(|n: NodeView| n.token)
    }

    /// The graph is the dependency graph of its own tokens, and those tokens
    /// are fit for one.
    pub open spec fn wf(self) -> bool {
        &&& heads_in_range(self.tokens(), self.layer)
        &&& complete(self.tokens(), self.layer)
        &&& self == graph_of(self.tokens(), self.layer)
    }
}

/// Every edge into one of the first `upto` tokens ends at one of them and
/// starts at a token of the sentence.
pub proof fn lemma_edges_join_nodes(tokens: Seq<Token>, layer: Layer, upto: int)
    requires
        heads_in_range(tokens, layer),
        0 <= upto <= tokens.len(),
    ensures
        forall|j: int|
            0 <= j < edges_upto(tokens, layer, upto).len() ==> (#[trigger] edges_upto(
                tokens,
                layer,
                upto,
            )[j]).source < tokens.len() && edges_upto(tokens, layer, upto)[j].target < upto,
    decreases upto,
{
    if upto > 0 {
        lemma_edges_join_nodes(tokens, layer, upto - 1);
        let before = edges_upto(tokens, layer, upto - 1);
        let token = tokens[upto - 1];
        assert(token.head_in(layer) matches Some(h) ==> h <= tokens.len());
        assert forall|j: int| 0 <= j < edges_upto(tokens, layer, upto).len() implies (
        #[trigger] edges_upto(tokens, layer, upto)[j]).source < tokens.len() && edges_upto(
            tokens,
            layer,
            upto,
        )[j].target < upto by {
            if j < before.len() {
                assert(edges_upto(tokens, layer, upto)[j] == before[j]);
            }
        }
    }
}

/// The number of tokens of the sentence that have a governor in `layer`.
pub open spec fn dependents(tokens: Seq<Token>, layer: Layer) -> nat {
    tokens.filter(|t: Token| t.is_dependent(layer)).len()
}

/// There are as many edges into the first `upto` tokens as there are tokens
/// with a governor among them.
proof fn lemma_edge_count_upto(tokens: Seq<Token>, layer: Layer, upto: int)
    requires
        0 <= upto <= tokens.len(),
    ensures
        edges_upto(tokens, layer, upto).len() == dependents(tokens.take(upto), layer),
    decreases upto,
{
    reveal(Seq::filter);
    if upto > 0 {
        lemma_edge_count_upto(tokens, layer, upto - 1);
        assert(tokens.take(upto).drop_last() =~= tokens.take(upto - 1));
        assert(tokens.take(upto).last() == tokens[upto - 1]);
    }
}

/// A graph has one node for each token of its sentence, and one edge for each
/// token that has a governor.
pub proof fn lemma_counts(tokens: Seq<Token>, layer: Layer)
    ensures
        graph_of(tokens, layer).nodes.len() == tokens.len(),
        graph_of(tokens, layer).edges.len() == dependents(tokens, layer),
{
    lemma_edge_count_upto(tokens, layer, tokens.len() as int);
    assert(tokens.take(tokens.len() as int) =~= tokens);
}

/// The nodes of a graph stand in the order of the tokens: the node at index
/// `i` holds the token at offset `i` and knows that offset.
pub proof fn lemma_nodes_follow_tokens(tokens: Seq<Token>, layer: Layer)
    ensures
        graph_of(tokens, layer).nodes.len() == tokens.len(),
        forall|i: int|
            0 <= i < tokens.len() ==> (#[trigger] graph_of(tokens, layer).nodes[i]).offset == i
                && graph_of(tokens, layer).nodes[i].token == tokens[i],
{
}

/// The edges into the first `upto` tokens: each is the edge into a token with
/// a governor, they stand in the order of their targets, and no such token is
/// left out.
proof fn lemma_edges_upto(tokens: Seq<Token>, layer: Layer, upto: int)
    requires
        0 <= upto <= tokens.len(),
    ensures
        forall|j: int|
            0 <= j < edges_upto(tokens, layer, upto).len() ==> {
                let target = (#[trigger] edges_upto(tokens, layer, upto)[j]).target as int;
                &&& target < upto
                &&& tokens[target].is_dependent(layer)
                &&& edges_upto(tokens, layer, upto)[j] == edge_into(tokens[target], layer, target)
            },
        forall|j: int, k: int|
            0 <= j < k < edges_upto(tokens, layer, upto).len() ==> (#[trigger] edges_upto(
                tokens,
                layer,
                upto,
            )[j]).target < (#[trigger] edges_upto(tokens, layer, upto)[k]).target,
        forall|i: int|
            0 <= i < upto && (#[trigger] tokens[i]).is_dependent(layer) ==> exists|j: int|
                0 <= j < edges_upto(tokens, layer, upto).len() && (#[trigger] edges_upto(
                    tokens,
                    layer,
                    upto,
                )[j]).target == i,
    decreases upto,
{
    if upto > 0 {
        lemma_edges_upto(tokens, layer, upto - 1);
        let before = edges_upto(tokens, layer, upto - 1);
        let now = edges_upto(tokens, layer, upto);
        assert forall|j: int| 0 <= j < now.len() implies {
            let target = (#[trigger] now[j]).target as int;
            &&& target < upto
            &&& tokens[target].is_dependent(layer)
            &&& now[j] == edge_into(tokens[target], layer, target)
        } by {
            if j < before.len() {
                assert(now[j] == before[j]);
            }
        }
        assert forall|j: int, k: int| 0 <= j < k < now.len() implies (#[trigger] now[j]).target < (
        #[trigger] now[k]).target by {
            assert(now[j] == before[j]);
            if k < before.len() {
                assert(now[k] == before[k]);
            }
        }
        assert forall|i: int| 0 <= i < upto && (#[trigger] tokens[i]).is_dependent(
            layer,
        ) implies exists|j: int| 0 <= j < now.len() && (#[trigger] now[j]).target == i by {
            if i < upto - 1 {
                let j = choose|j: int| 0 <= j < before.len() && (#[trigger] before[j]).target == i;
                assert(now[j] == before[j]);
            } else {
                assert(now[now.len() - 1].target == i);
            }
        }
    }
}

/// A token with a governor has exactly one edge coming in: it starts at the
/// governor, whose index is the head less one, and carries the token's
/// relation.
pub proof fn lemma_one_edge_into_dependent(tokens: Seq<Token>, layer: Layer, i: int)
    requires
        0 <= i < tokens.len(),
        tokens[i].is_dependent(layer),
    ensures
        exists|j: int|
            0 <= j < graph_of(tokens, layer).edges.len() && #[trigger] graph_of(
                tokens,
                layer,
            ).edges[j] == edge_into(tokens[i], layer, i),
        edge_into(tokens[i], layer, i).target == i,
        edge_into(tokens[i], layer, i).source == tokens[i].head_in(layer).unwrap() - 1,
        forall|j: int, k: int|
            0 <= j < graph_of(tokens, layer).edges.len() && 0 <= k < graph_of(
                tokens,
                layer,
            ).edges.len() && (#[trigger] graph_of(tokens, layer).edges[j]).target == i && (
            #[trigger] graph_of(tokens, layer).edges[k]).target == i ==> j == k,
{
    let edges = graph_of(tokens, layer).edges;
    lemma_edges_upto(tokens, layer, tokens.len() as int);
    let j = choose|j: int| 0 <= j < edges.len() && (#[trigger] edges[j]).target == i;
    assert(edges[j] == edge_into(tokens[i], layer, i));
    assert forall|j: int, k: int|
        0 <= j < edges.len() && 0 <= k < edges.len() && (#[trigger] edges[j]).target == i && (
        #[trigger] edges[k]).target == i implies j == k by {
        if j < k {
            assert(edges[j].target < edges[k].target);
        } else if k < j {
            assert(edges[k].target < edges[j].target);
        }
    }
}

/// A root has no edge coming in.
pub proof fn lemma_no_edge_into_root(tokens: Seq<Token>, layer: Layer, i: int)
    requires
        0 <= i < tokens.len(),
        !tokens[i].is_dependent(layer),
    ensures
        forall|j: int|
            0 <= j < graph_of(tokens, layer).edges.len() ==> (#[trigger] graph_of(
                tokens,
                layer,
            ).edges[j]).target != i,
{
    lemma_edges_upto(tokens, layer, tokens.len() as int);
}

/// The graph of a sentence whose heads stay within it and whose tokens lack
/// nothing is well formed: it is the graph of its own tokens.
pub proof fn lemma_graph_is_wf(tokens: Seq<Token>, layer: Layer)
    requires
        heads_in_range(tokens, layer),
        complete(tokens, layer),
    ensures
        graph_of(tokens, layer).tokens() == tokens,
        graph_of(tokens, layer).wf(),
{
    assert(graph_of(tokens, layer).tokens() =~= tokens);
}

impl DependencyNode {
    /// The token that the node stands for.
    pub fn token(&self) -> (t: &Token)
        ensures
            *t == self@.token,
    {
        &self.token
    }

    /// The surface form of the node's token.
    pub fn form(&self) -> (f: &str)
        ensures
            f@ == self@.token.form@,
    {
        self.token.form.as_str()
    }

    /// The zero-based offset of the node's token in the sentence.
    pub fn offset(&self) -> (o: usize)
        ensures
            o == self@.offset,
    {
        self.offset
    }

    /// Whether the node is to be highlighted.
    pub fn marked(&self) -> (m: bool)
        ensures
            m == self@.marked,
    {
        self.marked
    }
}

impl DependencyEdge {
    /// The index of the governor.
    pub fn source(&self) -> (s: usize)
        ensures
            s == self@.source,
    {
        self.source
    }

    /// The index of the dependent.
    pub fn target(&self) -> (t: usize)
        ensures
            t == self@.target,
    {
        self.target
    }

    /// The label of the relation.
    pub fn relation(&self) -> (r: &str)
        ensures
            r@ == self@.relation,
    {
        self.relation.as_str()
    }
}

impl DependencyGraph {
    #[verifier::type_invariant]
    spec fn inv(&self) -> bool {
        self@.wf()
    }

    /// The layer that the graph was built from.
    pub fn layer(&self) -> (l: Layer)
        ensures
            l == self@.layer,
    {
        self.layer
    }

    /// The nodes, in index order, which is the order of the tokens.
    pub fn nodes(&self) -> (nodes: &[DependencyNode])
        ensures
            node_views(nodes@) == self@.nodes,
            self@.wf(),
    {
        proof {
            use_type_invariant(self);
        }
        self.nodes.as_slice()
    }

    /// The edges, in the order in which they were made.
    pub fn edges(&self) -> (edges: &[DependencyEdge])
        ensures
            edge_views(edges@) == self@.edges,
            self@.wf(),
    {
        proof {
            use_type_invariant(self);
        }
        self.edges.as_slice()
    }

    /// The number of nodes.
    pub fn node_count(&self) -> (n: usize)
        ensures
            n == self@.nodes.len(),
    {
        self.nodes.len()
    }

    /// The number of edges.
    pub fn edge_count(&self) -> (n: usize)
        ensures
            n == self@.edges.len(),
    {
        self.edges.len()
    }

    /// Says whether every head that is filled in for `layer` names the root or
    /// a token of the sentence, which is what [`DependencyGraph::build`] asks.
    pub fn heads_in_range(sentence: &[Token], layer: Layer) -> (ok: bool)
        ensures
            ok == heads_in_range(sentence@, layer),
    {
        let n = sentence.len();
        let mut i: usize = 0;
        while i < n
            invariant
                n == sentence@.len(),
                i <= n,
                forall|j: int|
                    0 <= j < i ==> (#[trigger] sentence@[j].head_in(layer) matches Some(h) ==> h
                        <= n),
            decreases n - i,
        {
            match sentence[i].head(layer) {
                Some(h) => {
                    if h > n {
                        assert(sentence@[i as int].head_in(layer) == Some(h));
                        return false;
                    }
                },
                None => {},
            }
            i += 1;
        }
        true
    }

    /// Builds the dependency graph of `sentence` in `layer`.
    ///
    /// Every token becomes a node, in order. A token whose head is 0 is a root
    /// and gets no edge; any other token gets one edge, from its governor to
    /// itself, labelled with its relation. Building fails at the first token
    /// that has no head in `layer`, or has a governor but no relation.
    pub fn build(sentence: &[Token], layer: Layer) -> (r: Result<DependencyGraph, Error>)
        requires
            heads_in_range(sentence@, layer),
        ensures
            match r {
                Ok(g) => {
                    &&& complete(sentence@, layer)
                    &&& g@ == graph_of(sentence@, layer)
                    &&& g@.wf()
                    &&& g@.nodes.len() == sentence@.len()
                    &&& g@.edges.len() == dependents(sentence@, layer)
                },
                Err(e) => exists|at: int| first_fault(sentence@, layer, at, e),
            },
    {
        let n = sentence.len();
        let mut nodes: Vec<DependencyNode> = Vec::new();
        let mut i: usize = 0;
        while i < n
            invariant
                n == sentence@.len(),
                i <= n,
                nodes@.len() == i,
                forall|j: int| 0 <= j < i ==> (#[trigger] nodes@[j])@ == node_of(sentence@[j], j),
            decreases n - i,
        {
            let token = &sentence[i];
            nodes.push(DependencyNode { token: token.clone(), offset: i, marked: token.marked() });
            i += 1;
        }
        let mut edges: Vec<DependencyEdge> = Vec::new();
        let mut i: usize = 0;
        while i < n
            invariant
                n == sentence@.len(),
                i <= n,
                heads_in_range(sentence@, layer),
                edge_views(edges@) == edges_upto(sentence@, layer, i as int),
                forall|j: int| 0 <= j < i ==> (#[trigger] sentence@[j].fault(layer)) is None,
            decreases n - i,
        {
            let token = &sentence[i];
            match token.head(layer) {
                None => {
                    assert(first_fault(sentence@, layer, i as int, Error::MissingHead));
                    return Err(Error::MissingHead);
                },
                Some(h) => {
                    if h != 0 {
                        match token.relation(layer) {
                            None => {
                                assert(first_fault(
                                    sentence@,
                                    layer,
                                    i as int,
                                    Error::MissingRelation,
                                ));
                                return Err(Error::MissingRelation);
                            },
                            Some(relation) => {
                                let edge = DependencyEdge {
                                    source: h - 1,
                                    target: i,
                                    relation: relation.clone(),
                                };
                                assert(edge@ == edge_into(sentence@[i as int], layer, i as int));
                                assert(edge_views(edges@.push(edge)) =~= edge_views(edges@).push(
                                    edge@,
                                ));
                                edges.push(edge);
                            },
                        }
                    }
                },
            }
            i += 1;
        }
        proof {
            let g = GraphView { layer, nodes: node_views(nodes@), edges: edge_views(edges@) };
            assert(g.nodes =~= graph_of(sentence@, layer).nodes);
            assert(g.tokens() =~= sentence@);
            lemma_counts(sentence@, layer);
        }
        Ok(DependencyGraph { layer, nodes, edges })
    }
}

/// The forms of a run of nodes.
pub open spec fn forms(nodes: Seq<NodeView>) -> Seq<Seq<char>> {
    nodes.map_values(|n: NodeView| n.token.form@)
}

/// What separates two words of a sentence that is written out.
pub const WORD_SEPARATOR: &'static str = " ";

/// Things that are made of tokens and can list their forms.
pub trait Tokens {
    fn tokens(&self) -> Vec<&str>;
}

impl Tokens for DependencyGraph {
    /// The forms of the tokens, in token order.
    fn tokens(&self) -> (words: Vec<&str>)
        ensures
            words@.len() == self@.nodes.len(),
            forall|i: int| 0 <= i < words@.len() ==> (#[trigger] words@[i])@ == forms(self@.nodes)[i],
    {
        let nodes = self.nodes();
        let mut words: Vec<&str> = Vec::new();
        let mut i: usize = 0;
        while i < nodes.len()
            invariant
                i <= nodes.len(),
                words@.len() == i,
                forall|j: int|
                    0 <= j < i ==> (#[trigger] words@[j])@ == forms(node_views(nodes@))[j],
            decreases nodes.len() - i,
        {
            words.push(nodes[i].form());
            i += 1;
        }
        words
    }
}

impl DependencyGraph {
    /// The sentence as running text: the forms in token order, with one space
    /// between each two neighbours.
    pub fn sentence_text(&self) -> (text: String)
        ensures
            text@ == joined(forms(self@.nodes), WORD_SEPARATOR@),
    {
        let nodes = self.nodes();
        let ghost words = forms(node_views(nodes@));
        let mut text = String::new();
        let mut i: usize = 0;
        while i < nodes.len()
            invariant
                i <= nodes.len(),
                words == forms(node_views(nodes@)),
                text@ == joined(words.take(i as int), WORD_SEPARATOR@),
            decreases nodes.len() - i,
        {
            proof {
                assert(words.take(i + 1).drop_last() =~= words.take(i as int));
                assert(words.take(i + 1).last() == nodes@[i as int]@.token.form@);
            }
            if i > 0 {
                text.append(WORD_SEPARATOR);
            }
            text.append(nodes[i].form());
            i += 1;
        }
        assert(words.take(nodes@.len() as int) =~= words);
        text
    }
}

impl Clone for DependencyNode {
    fn clone(&self) -> (copy: Self)
        ensures
            copy@ == self@,
    {
        DependencyNode { token: self.token.clone(), offset: self.offset, marked: self.marked }
    }
}

impl Clone for DependencyEdge {
    fn clone(&self) -> (copy: Self)
        ensures
            copy@ == self@,
    {
        DependencyEdge {
            source: self.source,
            target: self.target,
            relation: self.relation.clone(),
        }
    }
}

impl Clone for DependencyGraph {
    fn clone(&self) -> (copy: Self)
        ensures
            copy@ == self@,
    {
        proof {
            use_type_invariant(self);
        }
        let mut nodes: Vec<DependencyNode> = Vec::new();
        let mut i: usize = 0;
        while i < self.nodes.len()
            invariant
                i <= self.nodes.len(),
                node_views(nodes@) == node_views(self.nodes@.take(i as int)),
            decreases self.nodes.len() - i,
        {
            let node = self.nodes[i].clone();
            proof {
                assert(self.nodes@.take(i + 1) =~= self.nodes@.take(i as int).push(
                    self.nodes@[i as int],
                ));
                assert(node_views(nodes@.push(node)) =~= node_views(nodes@).push(node@));
                assert(node_views(self.nodes@.take(i as int).push(self.nodes@[i as int]))
                    =~= node_views(self.nodes@.take(i as int)).push(self.nodes@[i as int]@));
            }
            nodes.push(node);
            i += 1;
        }
        let mut edges: Vec<DependencyEdge> = Vec::new();
        let mut i: usize = 0;
        while i < self.edges.len()
            invariant
                i <= self.edges.len(),
                edge_views(edges@) == edge_views(self.edges@.take(i as int)),
            decreases self.edges.len() - i,
        {
            let edge = self.edges[i].clone();
            proof {
                assert(self.edges@.take(i + 1) =~= self.edges@.take(i as int).push(
                    self.edges@[i as int],
                ));
                assert(edge_views(edges@.push(edge)) =~= edge_views(edges@).push(edge@));
                assert(edge_views(self.edges@.take(i as int).push(self.edges@[i as int]))
                    =~= edge_views(self.edges@.take(i as int)).push(self.edges@[i as int]@));
            }
            edges.push(edge);
            i += 1;
        }
        proof {
            assert(self.nodes@.take(self.nodes@.len() as int) =~= self.nodes@);
            assert(self.edges@.take(self.edges@.len() as int) =~= self.edges@);
        }
        DependencyGraph { layer: self.layer, nodes, edges }
    }
}

} // verus!
