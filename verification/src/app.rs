//! The outline behind its invariant.
//!
//! `App` keeps its state to itself, so the forest can only change through
//! the commands below, each of which is total: whatever is asked at a
//! boundary (an empty outline, the first or last sibling) is a harmless
//! no-op.

use crate::command::{binding, ChordState, Command, Mode, Outcome};
use crate::node::TreeNode;
use crate::outline::Outline;
use crate::store::TreeStore;
use crate::traverse::{lines_of, VisibleLine};
use vstd::prelude::*;

verus! {

/// The outline editor's state: the forest of nodes, the selection, the
/// chord and the mode.
pub struct App {
    store: TreeStore,
}

impl View for App {
    type V = Outline;

    open spec fn view(&self) -> Outline {
        self.outline()
    }
}

impl App {
    #[verifier::type_invariant]
    spec fn holds_a_forest(self) -> bool {
        self.store.well_formed()
    }

    /// The outline as a mathematical value.
    pub closed spec fn outline(&self) -> Outline {
        self.store@
    }

    /// An empty outline in tree mode, with nothing selected.
    pub fn new() -> (app: Self)
        ensures
            app@ == Outline::empty(),
            app@.wf(),
    {
        Self { store: TreeStore::new() }
    }

    /// Hands the store out for a command to work on and leaves an empty
    /// one in its place.
    fn take_store(&mut self) -> (store: TreeStore)
        ensures
            store == old(self).store,
            store.well_formed(),
    {
        proof {
            use_type_invariant(&*self);
        }
        let mut store = TreeStore::new();
        std::mem::swap(&mut store, &mut self.store);
        store
    }

    /// Adds a folder as the last child of the selection, or as the last
    /// top-level node when nothing is selected, and selects it. Its
    /// identifier is drawn at random, so the contract names it by the
    /// selection it leaves behind.
    pub fn add_child_node(&mut self)
        ensures
            final(self)@.wf(),
            final(self)@.selected matches Some(id) && !old(self)@.forest.contains(id)
                && final(self)@ == old(self)@.with_child(id),
    {
        let mut store = self.take_store();
        store.add_child_node();
        self.store = store;
    }

    /// Adds a folder at the end of the selection's sibling group, or as
    /// the last top-level node when nothing is selected, and selects it.
    /// Its identifier is drawn at random, so the contract names it by the
    /// selection it leaves behind.
    pub fn add_sibling_node(&mut self)
        ensures
            final(self)@.wf(),
            final(self)@.selected matches Some(id) && !old(self)@.forest.contains(id)
                && final(self)@ == old(self)@.with_sibling(id),
    {
        let mut store = self.take_store();
        store.add_sibling_node();
        self.store = store;
    }

    /// Adds a child as `add_child_node` does, with `seed` in place of the
    /// random draw: the new node gets the first identifier from `seed` on
    /// that the table does not hold.
    pub fn add_child_seeded(&mut self, seed: u128) -> (id: u128)
        ensures
            final(self)@.wf(),
            id == old(self)@.forest.free_id(seed),
            !old(self)@.forest.contains(id),
            !old(self)@.forest.contains(seed) ==> id == seed,
            final(self)@ == old(self)@.with_child(id),
    {
        let mut store = self.take_store();
        let id = store.add_child_seeded(seed);
        self.store = store;
        id
    }

    /// Adds a sibling as `add_sibling_node` does, with `seed` in place of
    /// the random draw: the new node gets the first identifier from `seed`
    /// on that the table does not hold.
    pub fn add_sibling_seeded(&mut self, seed: u128) -> (id: u128)
        ensures
            final(self)@.wf(),
            id == old(self)@.forest.free_id(seed),
            !old(self)@.forest.contains(id),
            !old(self)@.forest.contains(seed) ==> id == seed,
            final(self)@ == old(self)@.with_sibling(id),
    {
        let mut store = self.take_store();
        let id = store.add_sibling_seeded(seed);
        self.store = store;
        id
    }

    /// Moves the selection to the next node of its sibling group. At the
    /// last sibling, or with nothing selected, the selection stays.
    pub fn move_selection_down(&mut self)
        ensures
            final(self)@.wf(),
            final(self)@ == old(self)@.moved_down(),
    {
        let mut store = self.take_store();
        store.move_selection_down();
        self.store = store;
    }

    /// Moves the selection to the previous node of its sibling group. At
    /// the first sibling, or with nothing selected, the selection stays.
    pub fn move_selection_up(&mut self)
        ensures
            final(self)@.wf(),
            final(self)@ == old(self)@.moved_up(),
    {
        let mut store = self.take_store();
        store.move_selection_up();
        self.store = store;
    }

    /// One press of the "go to first" key. The first press arms the chord;
    /// the press after it selects the first top-level node, if there is
    /// one, and puts the chord back at rest.
    pub fn select_first_overall(&mut self)
        ensures
            final(self)@.wf(),
            final(self)@ == old(self)@.first_pressed(),
    {
        let mut store = self.take_store();
        store.select_first_overall();
        self.store = store;
    }

    /// Selects the deepest last node: from the last top-level node down
    /// through last children until a node has none. An empty outline keeps
    /// its selection.
    pub fn select_last_overall(&mut self)
        ensures
            final(self)@.wf(),
            final(self)@ == old(self)@.last_selected(),
    {
        let mut store = self.take_store();
        store.select_last_overall();
        self.store = store;
    }

    /// Carries out one command and says whether the front end goes on.
    ///
    /// Only tree mode reacts. While the chord is pending the press belongs
    /// to the chord: its own key completes it, any other key only puts it
    /// back at rest. Otherwise the command does its work.
    pub fn dispatch(&mut self, cmd: Command) -> (outcome: Outcome)
        ensures
            final(self)@.wf(),
            old(self)@.steps_to(cmd, final(self)@),
            outcome == old(self)@.outcome_of(cmd),
    {
        let mut store = self.take_store();
        let outcome = store.dispatch(cmd);
        self.store = store;
        outcome
    }

    /// Carries out the command that the tree mode binds to `key`.
    pub fn handle_key(&mut self, key: char) -> (outcome: Outcome)
        ensures
            final(self)@.wf(),
            old(self)@.steps_to(binding(key), final(self)@),
            outcome == old(self)@.outcome_of(binding(key)),
    {
        let mut store = self.take_store();
        let outcome = store.handle_key(key);
        self.store = store;
        outcome
    }

    /// Every node of the outline as one line, in depth-first pre-order:
    /// a node, then its children in order, then its next sibling.
    /// Top-level nodes have depth 0. Each call starts afresh.
    pub fn traverse_visible(&self) -> (lines: Vec<VisibleLine>)
        ensures
            self@.wf(),
            lines_of(lines@) == self@.visible_lines(),
            lines@.len() == self@.forest.nodes.len(),
    {
        proof {
            use_type_invariant(self);
        }
        self.store.traverse_visible()
    }

    /// The mode that the outline is in.
    pub fn mode(&self) -> (mode: Mode)
        ensures
            mode == self@.mode,
    {
        self.store.mode
    }

    /// Where the "go to first" chord stands.
    pub fn chord(&self) -> (chord: ChordState)
        ensures
            chord == self@.chord,
    {
        self.store.chord
    }

    /// Whether the tree pane has the focus.
    pub fn tree_focused(&self) -> (focused: bool)
        ensures
            focused == self@.tree_focused,
    {
        self.store.tree_focused
    }

    /// The identifier of the selected node, if one is selected.
    pub fn selected_node(&self) -> (selected: Option<u128>)
        ensures
            self@.wf(),
            selected == self@.selected,
    {
        proof {
            use_type_invariant(self);
        }
        self.store.selected_node
    }

    /// The top-level nodes in insertion order.
    pub fn roots(&self) -> (roots: &Vec<u128>)
        ensures
            roots@ == self@.forest.roots,
    {
        &self.store.roots
    }

    /// The node with identifier `id`, if the table holds it.
    pub fn node(&self, id: u128) -> (found: Option<&TreeNode>)
        ensures
            match found {
                Some(node) => self@.forest.contains(id) && node@ == self@.forest.nodes[id],
                None => !self@.forest.contains(id),
            },
    {
        self.store.node(id)
    }

    /// The number of nodes in the table.
    pub fn node_count(&self) -> (count: usize)
        ensures
            count == self@.forest.nodes.len(),
    {
        self.store.node_count()
    }

    /// Whether the outline has no nodes.
    pub fn is_empty(&self) -> (empty: bool)
        ensures
            empty == (self@.forest.nodes.len() == 0),
    {
        self.store.node_count() == 0
    }

    /// The text that an editor pane shows: the content of the selected
    /// node, or nothing when there is no selection or it has no content.
    pub fn selected_content(&self) -> (text: &str)
        ensures
            text@ == self@.selected_text(),
    {
        self.store.selected_content()
    }
}

} // verus!
