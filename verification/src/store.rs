//! The state of the outline in the open: the node table, the top-level
//! list, the selection and the chord, with the commands that change them.
//!
//! The fields are public, so the invariant is a precondition: each command
//! asks for a well-formed store and leaves one. `App` wraps a store that
//! nothing else can reach and asks for nothing.

use crate::command::{ChordState, Mode};
use crate::forest::{position, Forest};
use crate::ident::{id_space, lemma_probe_injective, lemma_probe_step, next_id, probe, random_uuid};
use crate::node::{NodeModel, TreeNode};
use crate::outline::Outline;
use crate::upkeep::lemma_graft_keeps_wf;
use std::collections::HashMap;
use vstd::prelude::*;
use vstd::std_specs::hash::*;

verus! {

broadcast use group_hash_axioms;

/// The outline and its selection. `nodes` is the sole owner of the nodes;
/// `roots` lists the top-level ones in insertion order.
pub struct TreeStore {
    pub mode: Mode,
    pub nodes: HashMap<u128, TreeNode>,
    pub roots: Vec<u128>,
    pub selected_node: Option<u128>,
    pub chord: ChordState,
    pub tree_focused: bool,
}

impl View for TreeStore {
    type V = Outline;

    open spec fn view(&self) -> Outline {
        Outline {
            forest: Forest {
                nodes: self.nodes@.map_values(|node: TreeNode| node@),
                roots: self.roots@,
            },
            selected: self.selected_node,
            chord: self.chord,
            mode: self.mode,
            tree_focused: self.tree_focused,
        }
    }
}

/// The first index at which `id` stands in `members`.
pub fn find(members: &Vec<u128>, id: u128) -> (found: Option<usize>)
    ensures
        match found {
            Some(i) => i < members.len() && members[i as int] == id && forall|j: int|
                0 <= j < i ==> members[j] != id,
            None => !members@.contains(id),
        },
{
    let mut i: usize = 0;
    while i < members.len()
        invariant
            i <= members.len(),
            forall|j: int| 0 <= j < i ==> members[j] != id,
        decreases members.len() - i,
    {
        if members[i] == id {
            return Some(i);
        }
        i += 1;
    }
    None
}

impl TreeStore {
    /// The invariant that `new` establishes and every command keeps.
    pub open spec fn well_formed(&self) -> bool {
        self@.wf()
    }

    /// An empty outline in tree mode, with nothing selected.
    pub fn new() -> (store: Self)
        ensures
            store.well_formed(),
            store@ == Outline::empty(),
    {
        let store = Self {
            mode: Mode::Tree,
            nodes: HashMap::new(),
            roots: Vec::new(),
            selected_node: None,
            chord: ChordState::Idle,
            tree_focused: true,
        };
        proof {
            assert(store@.forest.nodes =~= Map::<u128, NodeModel>::empty());
            Outline::lemma_empty_is_wf();
        }
        store
    }

    /// The identifier that a new node gets when `seed` was drawn for it:
    /// the first one from `seed` on that the table does not hold.
    pub fn claim_id(&self, seed: u128) -> (id: u128)
        ensures
            id == self@.forest.free_id(seed),
            !self@.forest.contains(id),
            !self@.forest.contains(seed) ==> id == seed,
    {
        let mut id: u128 = seed;
        let ghost mut steps: nat = 0;
        let ghost mut tried: Set<u128> = Set::empty();
        proof {
            assert(probe(seed, 0) == seed) by (nonlinear_arith)
                requires
                    0 <= seed < id_space(),
            ;
        }
        while self.nodes.contains_key(&id)
            invariant
                self@.forest.nodes.dom() == self.nodes@.dom(),
                id == probe(seed, steps),
                tried.finite(),
                tried.len() == steps,
                tried.subset_of(self.nodes@.dom()),
                forall|x: u128|
                    tried.contains(x) ==> exists|j: nat| j < steps && x == probe(seed, j),
                forall|j: nat| j < steps ==> self@.forest.contains(#[trigger] probe(seed, j)),
            decreases self.nodes@.len() - steps,
        {
            proof {
                vstd::set_lib::lemma_len_subset(tried, self.nodes@.dom());
                assert(self.nodes@.len() == spec_hash_map_len(&self.nodes));
                assert(!tried.contains(id)) by {
                    if tried.contains(id) {
                        let j = choose|j: nat| j < steps && id == probe(seed, j);
                        lemma_probe_injective(seed, j, steps);
                    }
                }
                lemma_probe_step(seed, steps);
                tried = tried.insert(id);
                vstd::set_lib::lemma_len_subset(tried, self.nodes@.dom());
            }
            id = next_id(id);
            proof {
                steps = steps + 1;
            }
        }
        proof {
            self@.forest.lemma_free_id(seed, steps);
        }
        id
    }

    /// Appends a new empty folder `id` to the group of `owner` and selects
    /// it.
    fn attach(&mut self, owner: Option<u128>, id: u128)
        requires
            old(self).well_formed(),
            old(self)@.forest.owns_group(owner),
            !old(self)@.forest.contains(id),
        ensures
            final(self).well_formed(),
            final(self)@ == old(self)@.attach(owner, id),
    {
        proof {
            lemma_graft_keeps_wf(self@.forest, owner, id);
        }
        match owner {
            None => {
                self.roots.push(id);
            },
            Some(p) => {
                let mut parent = self.nodes.remove(&p).unwrap();
                parent.children.push(id);
                self.nodes.insert(p, parent);
            },
        }
        self.nodes.insert(id, TreeNode::placeholder(id, owner));
        self.selected_node = Some(id);
        self.chord = ChordState::Idle;
        proof {
            assert(self@.forest.nodes =~= old(self)@.forest.graft(owner, id).nodes);
        }
    }

    /// Adds a folder as the last child of the selection, or as the last
    /// top-level node when nothing is selected, and selects it. The new
    /// node gets the first identifier from `seed` on that is free.
    pub fn add_child_seeded(&mut self, seed: u128) -> (id: u128)
        requires
            old(self).well_formed(),
        ensures
            final(self).well_formed(),
            id == old(self)@.forest.free_id(seed),
            !old(self)@.forest.contains(id),
            !old(self)@.forest.contains(seed) ==> id == seed,
            final(self)@ == old(self)@.with_child(id),
    {
        let id = self.claim_id(seed);
        let owner = self.selected_node;
        self.attach(owner, id);
        id
    }

    /// Adds a folder at the end of the selection's sibling group, or as
    /// the last top-level node when nothing is selected, and selects it.
    /// The new node gets the first identifier from `seed` on that is free.
    pub fn add_sibling_seeded(&mut self, seed: u128) -> (id: u128)
        requires
            old(self).well_formed(),
        ensures
            final(self).well_formed(),
            id == old(self)@.forest.free_id(seed),
            !old(self)@.forest.contains(id),
            !old(self)@.forest.contains(seed) ==> id == seed,
            final(self)@ == old(self)@.with_sibling(id),
    {
        let id = self.claim_id(seed);
        let owner = self.selected_owner();
        self.attach(owner, id);
        id
    }

    /// Adds a folder as the last child of the selection, or as the last
    /// top-level node when nothing is selected, and selects it. Its
    /// identifier is drawn at random, so the contract names it by the
    /// selection it leaves behind.
    pub fn add_child_node(&mut self)
        requires
            old(self).well_formed(),
        ensures
            final(self).well_formed(),
            final(self)@.selected matches Some(id) && !old(self)@.forest.contains(id)
                && final(self)@ == old(self)@.with_child(id),
    {
        let seed = random_uuid();
        self.add_child_seeded(seed);
    }

    /// Adds a folder at the end of the selection's sibling group, or as
    /// the last top-level node when nothing is selected, and selects it.
    /// Its identifier is drawn at random, so the contract names it by the
    /// selection it leaves behind.
    pub fn add_sibling_node(&mut self)
        requires
            old(self).well_formed(),
        ensures
            final(self).well_formed(),
            final(self)@.selected matches Some(id) && !old(self)@.forest.contains(id)
                && final(self)@ == old(self)@.with_sibling(id),
    {
        let seed = random_uuid();
        self.add_sibling_seeded(seed);
    }

    /// The node with identifier `id`, if the table holds it.
    pub fn node(&self, id: u128) -> (found: Option<&TreeNode>)
        ensures
            match found {
                Some(node) => self@.forest.contains(id) && node@ == self@.forest.nodes[id],
                None => !self@.forest.contains(id),
            },
    {
        self.nodes.get(&id)
    }

    /// The owner of the selection's sibling group: its parent, or the top
    /// level when it has none or nothing is selected.
    pub(crate) fn selected_owner(&self) -> (owner: Option<u128>)
        requires
            self.well_formed(),
        ensures
            owner == self@.selected_owner(),
            self@.forest.owns_group(owner),
    {
        match self.selected_node {
            None => None,
            Some(id) => self.node(id).unwrap().parent,
        }
    }

    /// The sibling group of `owner`.
    pub(crate) fn group(&self, owner: Option<u128>) -> (members: &Vec<u128>)
        requires
            self@.forest.owns_group(owner),
        ensures
            members@ == self@.forest.group(owner),
    {
        match owner {
            None => &self.roots,
            Some(p) => &self.node(p).unwrap().children,
        }
    }

    /// Moves the selection one place down or up within its sibling group.
    fn shift_selection(&mut self, down: bool)
        requires
            old(self).well_formed(),
        ensures
            final(self).well_formed(),
            final(self)@ == old(self)@.moved(
                if down {
                    1
                } else {
                    -1
                },
            ),
    {
        let mut target: Option<u128> = None;
        if let Some(id) = self.selected_node {
            let owner = self.selected_owner();
            let members = self.group(owner);
            if let Some(i) = find(members, id) {
                if down {
                    if i + 1 < members.len() {
                        target = Some(members[i + 1]);
                    }
                } else {
                    if i > 0 {
                        target = Some(members[i - 1]);
                    }
                }
            }
        }
        if let Some(t) = target {
            self.selected_node = Some(t);
        }
        self.chord = ChordState::Idle;
    }

    /// Moves the selection to the next node of its sibling group. At the
    /// last sibling, or with nothing selected, the selection stays.
    pub fn move_selection_down(&mut self)
        requires
            old(self).well_formed(),
        ensures
            final(self).well_formed(),
            final(self)@ == old(self)@.moved_down(),
    {
        self.shift_selection(true)
    }

    /// Moves the selection to the previous node of its sibling group. At
    /// the first sibling, or with nothing selected, the selection stays.
    pub fn move_selection_up(&mut self)
        requires
            old(self).well_formed(),
        ensures
            final(self).well_formed(),
            final(self)@ == old(self)@.moved_up(),
    {
        self.shift_selection(false)
    }

    /// One press of the "go to first" key. The first press arms the chord;
    /// the press after it selects the first top-level node, if there is
    /// one, and puts the chord back at rest.
    pub fn select_first_overall(&mut self)
        requires
            old(self).well_formed(),
        ensures
            final(self).well_formed(),
            final(self)@ == old(self)@.first_pressed(),
    {
        match self.chord {
            ChordState::Idle => {
                self.chord = ChordState::PendingFirstKey;
            },
            ChordState::PendingFirstKey => {
                self.chord = ChordState::Idle;
                if self.roots.len() > 0 {
                    proof {
                        assert(self@.forest.contains(self@.forest.group(None)[0]));
                    }
                    self.selected_node = Some(self.roots[0]);
                }
            },
        }
    }

    /// The last child of `id`, if it has children.
    fn last_child(&self, id: u128) -> (child: Option<u128>)
        requires
            self@.forest.contains(id),
        ensures
            child == if self@.forest.group(Some(id)).len() == 0 {
                None
            } else {
                Some(self@.forest.group(Some(id)).last())
            },
    {
        let children = self.group(Some(id));
        let count = children.len();
        if count == 0 {
            None
        } else {
            Some(children[count - 1])
        }
    }

    /// Selects the deepest last node: from the last top-level node down
    /// through last children until a node has none. An empty outline keeps
    /// its selection.
    pub fn select_last_overall(&mut self)
        requires
            old(self).well_formed(),
        ensures
            final(self).well_formed(),
            final(self)@ == old(self)@.last_selected(),
    {
        let count = self.roots.len();
        if count > 0 {
            let start = self.roots[count - 1];
            proof {
                self@.forest.lemma_slack_shrinks(None, count - 1);
            }
            let mut current = start;
            let mut next = self.last_child(current);
            while next.is_some()
                invariant
                    self.well_formed(),
                    self@.forest.contains(current),
                    self@.forest.last_descendant(current) == self@.forest.last_descendant(start),
                    next == if self@.forest.group(Some(current)).len() == 0 {
                        None
                    } else {
                        Some(self@.forest.group(Some(current)).last())
                    },
                decreases self@.forest.slack(Some(current)),
            {
                proof {
                    let children = self@.forest.group(Some(current));
                    self@.forest.lemma_slack_shrinks(Some(current), children.len() - 1);
                }
                current = next.unwrap();
                next = self.last_child(current);
            }
            self.selected_node = Some(current);
        }
        self.chord = ChordState::Idle;
    }

    /// The text that an editor pane shows: the content of the selected
    /// node, or nothing when there is no selection or it has no content.
    pub fn selected_content(&self) -> (text: &str)
        ensures
            text@ == self@.selected_text(),
    {
        proof {
            reveal_strlit("");
        }
        match self.selected_node {
            None => "",
            Some(id) => match self.node(id) {
                None => "",
                Some(node) => match &node.content {
                    Some(text) => text.as_str(),
                    None => "",
                },
            },
        }
    }

    /// The number of nodes in the table.
    pub fn node_count(&self) -> (count: usize)
        ensures
            count == self@.forest.nodes.len(),
    {
        proof {
            assert(self@.forest.nodes.dom() =~= self.nodes@.dom());
        }
        self.nodes.len()
    }
}

} // verus!
