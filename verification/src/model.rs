use vstd::prelude::*;
use vstd::std_specs::iter::IteratorSpec;

use crate::graph::DependencyGraph;

verus! {

/// The kinds of change that a subscriber can ask to hear of.
#[derive(Clone, Copy, Debug, PartialEq, Eq, Structural)]
pub enum ModelUpdate {
    /// Every change.
    Any,
    /// Another graph is selected, or a graph is selected for the first time.
    TreeSelection,
    /// A graph was added.
    TreebankLen,
}

/// An ordered collection of dependency graphs that only grows.
pub struct TreebankModel {
    treebank: Vec<DependencyGraph>,
}

impl View for TreebankModel {
    type V = Seq<DependencyGraph>;

    closed spec fn view(&self) -> Seq<DependencyGraph> {
        self.treebank@
    }
}

/// `Vec::from_iter`, which gathers what an iterator yields, in the order in
/// which it yields it. Of an iterator that keeps to the laws by which vstd
/// describes iterators, that is the sequence that it has left to yield; of any
/// other iterator nothing is said.
#[verifier::external_body]
fn collect_graphs<I>(iter: I) -> (graphs: Vec<DependencyGraph>) where
    I: Iterator<Item = DependencyGraph>,

    ensures
        iter.obeys_prophetic_iter_laws() ==> graphs@ == iter.remaining(),
{
    Vec::from_iter(iter)
}

impl TreebankModel {
    /// An empty collection.
    pub fn new() -> (m: Self)
        ensures
            m@ == Seq::<DependencyGraph>::empty(),
    {
        TreebankModel { treebank: Vec::new() }
    }

    /// The collection of the graphs that `iter` yields, in that order.
    pub fn from_iter<I>(iter: I) -> (m: Self) where I: Iterator<Item = DependencyGraph>
        ensures
            iter.obeys_prophetic_iter_laws() ==> m@ == iter.remaining(),
    {
        TreebankModel { treebank: collect_graphs(iter) }
    }

    /// The graph at `idx`, if there is one.
    pub fn graph(&self, idx: usize) -> (g: Option<&DependencyGraph>)
        ensures
            match g {
                Some(graph) => idx < self@.len() && *graph == self@[idx as int],
                None => idx >= self@.len(),
            },
    {
        self.treebank.get(idx)
    }

    /// Whether the collection holds no graph.
    pub fn is_empty(&self) -> (e: bool)
        ensures
            e == (self@.len() == 0),
    {
        self.treebank.len() == 0
    }

    /// The number of graphs.
    pub fn len(&self) -> (n: usize)
        ensures
            n == self@.len(),
    {
        self.treebank.len()
    }

    /// Adds `graph` at the end.
    pub fn push(&mut self, graph: DependencyGraph)
        ensures
            final(self)@ == old(self)@.push(graph),
    {
        self.treebank.push(graph);
    }
}

impl From<Vec<DependencyGraph>> for TreebankModel {
    /// The collection of the graphs of `vec`, in that order.
    fn from(vec: Vec<DependencyGraph>) -> (m: Self)
        ensures
            m@ == vec@,
    {
        TreebankModel { treebank: vec }
    }
}

impl vstd::std_specs::convert::FromSpecImpl<Vec<DependencyGraph>> for TreebankModel {
    open spec fn obeys_from_spec() -> bool {
        true
    }

    closed spec fn from_spec(vec: Vec<DependencyGraph>) -> Self {
        TreebankModel { treebank: vec }
    }
}

/// What a cursor is: the graphs, the index of the selected one, and the
/// subscribers of each kind of change in the order in which they came.
pub struct ModelView<C> {
    pub store: TreebankModel,
    pub idx: usize,
    pub any: Seq<C>,
    pub tree_selection: Seq<C>,
    pub treebank_len: Seq<C>,
}

impl<C: Fn(&TreebankModel, usize)> ModelView<C> {
    /// Those who subscribed to `update` itself.
    pub open spec fn subscribers(self, update: ModelUpdate) -> Seq<C> {
        match update {
            ModelUpdate::Any => self.any,
            ModelUpdate::TreeSelection => self.tree_selection,
            ModelUpdate::TreebankLen => self.treebank_len,
        }
    }

    /// Those who are told when `update` fires: its own subscribers first, then
    /// the subscribers of every change, each group in the order in which its
    /// members came.
    pub open spec fn audience(self, update: ModelUpdate) -> Seq<C> {
        self.subscribers(update) + self.any
    }

    /// Everyone who is told of `update` has been called on this state.
    pub open spec fn heard(self, update: ModelUpdate) -> bool {
        forall|i: int|
            0 <= i < self.audience(update).len() ==> call_ensures(
                #[trigger] self.audience(update)[i],
                (&self.store, self.idx),
                (),
            )
    }

    /// The selected graph: none while there is no graph at all.
    pub open spec fn selected(self) -> Option<DependencyGraph> {
        if self.idx < self.store@.len() {
            Some(self.store@[self.idx as int])
        } else {
            None
        }
    }

    /// This state with `callback` added as the last subscriber of `update`.
    pub open spec fn connected(self, update: ModelUpdate, callback: C) -> Self {
        match update {
            ModelUpdate::Any => ModelView { any: self.any.push(callback), ..self },
            ModelUpdate::TreeSelection => ModelView {
                tree_selection: self.tree_selection.push(callback),
                ..self
            },
            ModelUpdate::TreebankLen => ModelView {
                treebank_len: self.treebank_len.push(callback),
                ..self
            },
        }
    }

    /// This state with the cursor at `idx`.
    pub open spec fn moved_to(self, idx: usize) -> Self {
        ModelView { idx, ..self }
    }

    /// This state with `store` as the collection.
    pub open spec fn holding(self, store: TreebankModel) -> Self {
        ModelView { store, ..self }
    }

    /// The index selects a graph wherever there is one, and is 0 otherwise;
    /// every subscriber may be called on any state.
    pub open spec fn wf(self) -> bool {
        &&& self.store@.len() == 0 ==> self.idx == 0
        &&& self.store@.len() > 0 ==> self.idx < self.store@.len()
        &&& callable(self.any)
        &&& callable(self.tree_selection)
        &&& callable(self.treebank_len)
    }
}

/// `callback` may be called on any state.
pub open spec fn total<C: Fn(&TreebankModel, usize)>(callback: C) -> bool {
    forall|store: &TreebankModel, idx: usize| call_requires(callback, (store, idx))
}

/// Each subscriber in `list` may be called on any state.
pub open spec fn callable<C: Fn(&TreebankModel, usize)>(list: Seq<C>) -> bool {
    forall|i: int| 0 <= i < list.len() ==> total(#[trigger] list[i])
}

/// A cursor over a growing collection of graphs, which tells its subscribers
/// of each change.
///
/// A subscriber is called with the collection and the index of the selected
/// graph, as they are after the change.
pub struct StatefulTreebankModel<C> {
    inner: TreebankModel,
    idx: usize,
    any: Vec<C>,
    tree_selection: Vec<C>,
    treebank_len: Vec<C>,
}

impl<C> View for StatefulTreebankModel<C> {
    type V = ModelView<C>;

    closed spec fn view(&self) -> ModelView<C> {
        ModelView {
            store: self.inner,
            idx: self.idx,
            any: self.any@,
            tree_selection: self.tree_selection@,
            treebank_len: self.treebank_len@,
        }
    }
}

impl<C: Fn(&TreebankModel, usize)> StatefulTreebankModel<C> {
    /// A cursor over an empty collection, with no subscriber.
    pub fn new() -> (m: Self)
        ensures
            m@.wf(),
            m@.store@.len() == 0,
            m@.idx == 0,
            m@.any.len() == 0,
            m@.tree_selection.len() == 0,
            m@.treebank_len.len() == 0,
    {
        StatefulTreebankModel {
            inner: TreebankModel::new(),
            idx: 0,
            any: Vec::new(),
            tree_selection: Vec::new(),
            treebank_len: Vec::new(),
        }
    }

    /// A cursor over the graphs that `iter` yields, at the first of them, with
    /// no subscriber.
    pub fn from_iter<I>(iter: I) -> (m: Self) where I: Iterator<Item = DependencyGraph>
        ensures
            m@.wf(),
            iter.obeys_prophetic_iter_laws() ==> m@.store@ == iter.remaining(),
            m@.idx == 0,
            m@.any.len() == 0,
            m@.tree_selection.len() == 0,
            m@.treebank_len.len() == 0,
    {
        StatefulTreebankModel {
            inner: TreebankModel::from_iter(iter),
            idx: 0,
            any: Vec::new(),
            tree_selection: Vec::new(),
            treebank_len: Vec::new(),
        }
    }

    /// Calls each of `list` on the present state, in order.
    fn call_each(&self, list: &Vec<C>)
        requires
            callable(list@),
        ensures
            forall|i: int|
                0 <= i < list@.len() ==> call_ensures(
                    #[trigger] list@[i],
                    (&self@.store, self@.idx),
                    (),
                ),
    {
        let mut i: usize = 0;
        while i < list.len()
            invariant
                i <= list.len(),
                callable(list@),
                forall|j: int|
                    0 <= j < i ==> call_ensures(
                        #[trigger] list@[j],
                        (&self@.store, self@.idx),
                        (),
                    ),
            decreases list.len() - i,
        {
            assert(total(list@[i as int]));
            let callback = &list[i];
            callback(&self.inner, self.idx);
            i += 1;
        }
    }

    /// Tells of `update`: calls its subscribers, then the subscribers of every
    /// change.
    fn callbacks(&self, update: ModelUpdate)
        requires
            self@.wf(),
        ensures
            self@.heard(update),
    {
        match update {
            ModelUpdate::Any => self.call_each(&self.any),
            ModelUpdate::TreeSelection => self.call_each(&self.tree_selection),
            ModelUpdate::TreebankLen => self.call_each(&self.treebank_len),
        }
        self.call_each(&self.any);
    }

    /// Adds `callback` as the last subscriber of `update`.
    pub fn connect_update(&mut self, update: ModelUpdate, callback: C)
        requires
            old(self)@.wf(),
            total(callback),
        ensures
            final(self)@.wf(),
            final(self)@ == old(self)@.connected(update, callback),
    {
        match update {
            ModelUpdate::Any => self.any.push(callback),
            ModelUpdate::TreeSelection => self.tree_selection.push(callback),
            ModelUpdate::TreebankLen => self.treebank_len.push(callback),
        }
    }

    /// Selects the first graph and tells of the selection. Does nothing while
    /// the collection is empty.
    ///
    /// Returns the changes that it told of.
    pub fn first(&mut self) -> (fired: Vec<ModelUpdate>)
        requires
            old(self)@.wf(),
        ensures
            final(self)@.wf(),
            final(self)@ == old(self)@.moved_to(0),
            fired@ == if old(self)@.store@.len() > 0 {
                seq![ModelUpdate::TreeSelection]
            } else {
                seq![]
            },
            forall|k: int| 0 <= k < fired@.len() ==> final(self)@.heard(#[trigger] fired@[k]),
    {
        self.set_idx(0)
    }

    /// The selected graph: none while the collection is empty.
    pub fn graph(&self) -> (g: Option<&DependencyGraph>)
        ensures
            match g {
                Some(graph) => self@.selected() == Some(*graph),
                None => self@.selected() is None,
            },
    {
        self.inner.graph(self.idx)
    }

    /// The index of the selected graph. It says nothing while the collection
    /// is empty.
    pub fn idx(&self) -> (i: usize)
        ensures
            i == self@.idx,
    {
        self.idx
    }

    /// Whether the collection holds no graph.
    pub fn is_empty(&self) -> (e: bool)
        ensures
            e == (self@.store@.len() == 0),
    {
        self.inner.is_empty()
    }

    /// The number of graphs.
    pub fn len(&self) -> (n: usize)
        ensures
            n == self@.store@.len(),
    {
        self.inner.len()
    }

    /// Selects the graph after the selected one and tells of the selection.
    /// Does nothing where the selected graph is the last, or there is none.
    ///
    /// Returns the changes that it told of.
    pub fn next(&mut self) -> (fired: Vec<ModelUpdate>)
        requires
            old(self)@.wf(),
        ensures
            final(self)@.wf(),
            old(self)@.idx + 1 < old(self)@.store@.len() ==> final(self)@ == old(self)@.moved_to(
                (old(self)@.idx + 1) as usize,
            ) && fired@ == seq![ModelUpdate::TreeSelection],
            old(self)@.idx + 1 >= old(self)@.store@.len() ==> final(self)@ == old(self)@
                && fired@.len() == 0,
            forall|k: int| 0 <= k < fired@.len() ==> final(self)@.heard(#[trigger] fired@[k]),
    {
        let idx = self.idx;
        if idx < self.len() {
            self.set_idx(idx + 1)
        } else {
            Vec::new()
        }
    }

    /// Selects the graph before the selected one and tells of the selection.
    /// Does nothing where the selected graph is the first, or there is none.
    ///
    /// Returns the changes that it told of.
    pub fn previous(&mut self) -> (fired: Vec<ModelUpdate>)
        requires
            old(self)@.wf(),
        ensures
            final(self)@.wf(),
            old(self)@.idx > 0 ==> final(self)@ == old(self)@.moved_to(
                (old(self)@.idx - 1) as usize,
            ) && fired@ == seq![ModelUpdate::TreeSelection],
            old(self)@.idx == 0 ==> final(self)@ == old(self)@ && fired@.len() == 0,
            forall|k: int| 0 <= k < fired@.len() ==> final(self)@.heard(#[trigger] fired@[k]),
    {
        let idx = self.idx;
        if idx == 0 {
            Vec::new()
        } else {
            self.set_idx(idx - 1)
        }
    }

    /// Adds `graph` at the end of the collection and tells of the new length.
    /// Where it is the first graph, it is now the selected one, and the
    /// selection is told of as well. The cursor does not move.
    ///
    /// Returns the changes that it told of.
    pub fn push(&mut self, graph: DependencyGraph) -> (fired: Vec<ModelUpdate>)
        requires
            old(self)@.wf(),
        ensures
            final(self)@.wf(),
            final(self)@ == old(self)@.holding(final(self)@.store),
            final(self)@.store@ == old(self)@.store@.push(graph),
            final(self)@.selected() == if old(self)@.store@.len() == 0 {
                Some(graph)
            } else {
                old(self)@.selected()
            },
            fired@ == if old(self)@.store@.len() == 0 {
                seq![ModelUpdate::TreebankLen, ModelUpdate::TreeSelection]
            } else {
                seq![ModelUpdate::TreebankLen]
            },
            forall|k: int| 0 <= k < fired@.len() ==> final(self)@.heard(#[trigger] fired@[k]),
    {
        let first = self.is_empty();
        self.inner.push(graph);
        let mut fired: Vec<ModelUpdate> = Vec::new();
        self.callbacks(ModelUpdate::TreebankLen);
        fired.push(ModelUpdate::TreebankLen);
        if first {
            self.callbacks(ModelUpdate::TreeSelection);
            fired.push(ModelUpdate::TreeSelection);
        }
        fired
    }

    /// Moves the cursor to `idx` and tells of the selection, where the
    /// collection has a graph at `idx`; does nothing otherwise.
    fn set_idx(&mut self, idx: usize) -> (fired: Vec<ModelUpdate>)
        requires
            old(self)@.wf(),
        ensures
            final(self)@.wf(),
            idx < old(self)@.store@.len() ==> final(self)@ == old(self)@.moved_to(idx) && fired@
                == seq![ModelUpdate::TreeSelection],
            idx >= old(self)@.store@.len() ==> final(self)@ == old(self)@ && fired@.len() == 0,
            forall|k: int| 0 <= k < fired@.len() ==> final(self)@.heard(#[trigger] fired@[k]),
    {
        let mut fired: Vec<ModelUpdate> = Vec::new();
        if idx < self.len() {
            self.idx = idx;
            self.callbacks(ModelUpdate::TreeSelection);
            fired.push(ModelUpdate::TreeSelection);
        }
        fired
    }
}

} // verus!
