//! The forest as a mathematical value: a table of nodes and the list of
//! top-level nodes, with the rules that make the table a forest.

use crate::ident::probe;
use crate::node::NodeModel;
use vstd::prelude::*;

verus! {

/// The nodes of the outline and their order.
///
/// Nodes form sibling groups. The group owned by `None` is the list of
/// top-level nodes; the group owned by `Some(p)` is the child list of `p`.
pub struct Forest {
    pub nodes: Map<u128, NodeModel>,
    pub roots: Seq<u128>,
}

/// The index at which `id` stands in `group`, if it stands there.
pub open spec fn position(group: Seq<u128>, id: u128) -> int {
    choose|i: int| 0 <= i < group.len() && group[i] == id
}

impl Forest {
    /// The forest without nodes.
    pub open spec fn empty() -> Forest {
        Forest { nodes: Map::empty(), roots: Seq::empty() }
    }

    /// Whether the table holds a node with identifier `id`.
    #[verifier::inline]
    pub open spec fn contains(self, id: u128) -> bool {
        self.nodes.dom().contains(id)
    }

    /// Whether `owner` owns a sibling group: the top level always does, a
    /// node does while it is in the table.
    pub open spec fn owns_group(self, owner: Option<u128>) -> bool {
        owner matches Some(p) ==> self.contains(p)
    }

    /// The sibling group of `owner`, in insertion order.
    pub open spec fn group(self, owner: Option<u128>) -> Seq<u128> {
        match owner {
            None => self.roots,
            Some(p) => self.nodes[p].children,
        }
    }

    /// The owner of the group in which `id` stands.
    pub open spec fn owner_of(self, id: u128) -> Option<u128> {
        self.nodes[id].parent
    }

    /// Parent and child links agree: each member of a group is in the table
    /// and names the group's owner as its parent, each node stands in the
    /// group of its parent, and no group lists a node twice.
    pub open spec fn linked(self) -> bool {
        &&& self.nodes.dom().finite()
        &&& forall|id: u128| self.contains(id) ==> (#[trigger] self.nodes[id]).id == id
        &&& forall|owner: Option<u128>, i: int|
            self.owns_group(owner) && 0 <= i < self.group(owner).len() ==> self.contains(
                #[trigger] self.group(owner)[i],
            ) && self.owner_of(self.group(owner)[i]) == owner
        &&& forall|id: u128|
            self.contains(id) ==> self.owns_group(#[trigger] self.owner_of(id)) && self.group(
                self.owner_of(id),
            ).contains(id)
        &&& forall|owner: Option<u128>|
            self.owns_group(owner) ==> (#[trigger] self.group(owner)).no_duplicates()
    }

    /// `birth` numbers the nodes below the node count so that every parent
    /// has a smaller number than its children.
    pub open spec fn ordered_by(self, birth: Map<u128, nat>) -> bool {
        forall|id: u128|
            self.contains(id) ==> (#[trigger] birth[id]) < self.nodes.len() && (self.owner_of(
                id,
            ) matches Some(p) ==> birth[p] < birth[id])
    }

    /// No chain of parent links comes back to where it started.
    pub open spec fn acyclic(self) -> bool {
        exists|birth: Map<u128, nat>| self.ordered_by(birth)
    }

    /// Every node of the table is a folder: commands add empty folders and
    /// none gives a node content, so no node is container and leaf at once.
    pub open spec fn all_folders(self) -> bool {
        forall|id: u128| self.contains(id) ==> (#[trigger] self.nodes[id]).is_folder()
    }

    /// The invariant of the forest.
    pub open spec fn wf(self) -> bool {
        &&& self.linked()
        &&& self.acyclic()
        &&& self.all_folders()
    }

    /// Whether `steps` steps from `seed` lead to the first identifier that
    /// the table does not hold.
    pub open spec fn first_free(self, seed: u128, steps: nat) -> bool {
        &&& !self.contains(probe(seed, steps))
        &&& forall|earlier: nat| earlier < steps ==> self.contains(#[trigger] probe(seed, earlier))
    }

    /// The identifier that a draw of `seed` gives a new node: `seed` itself
    /// unless the table holds it already, else the first free identifier
    /// after it.
    pub open spec fn free_id(self, seed: u128) -> u128 {
        probe(seed, choose|steps: nat| self.first_free(seed, steps))
    }

    /// The first free identifier is unique, so naming its distance from
    /// the seed names it.
    pub proof fn lemma_free_id(self, seed: u128, steps: nat)
        requires
            self.first_free(seed, steps),
        ensures
            self.free_id(seed) == probe(seed, steps),
            !self.contains(self.free_id(seed)),
    {
        let chosen = choose|steps: nat| self.first_free(seed, steps);
        assert(self.first_free(seed, chosen));
        if chosen < steps {
            assert(self.contains(probe(seed, chosen)));
        } else if steps < chosen {
            assert(self.contains(probe(seed, steps)));
        }
    }

    /// The forest with a new empty folder `id` at the end of the group of
    /// `owner`.
    pub open spec fn graft(self, owner: Option<u128>, id: u128) -> Forest {
        let table = match owner {
            None => self.nodes,
            Some(p) => self.nodes.insert(p, self.nodes[p].with_child(id)),
        };
        Forest {
            nodes: table.insert(id, NodeModel::placeholder(id, owner)),
            roots: if owner is None {
                self.roots.push(id)
            } else {
                self.roots
            },
        }
    }
}

} // verus!
