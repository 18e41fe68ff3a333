//! Walking down the forest: the deepest last node and the pre-order
//! sequence of visible lines.

use crate::forest::Forest;
use vstd::prelude::*;

verus! {

/// One line of the rendered outline.
pub struct LineModel {
    pub depth: nat,
    pub id: u128,
    pub name: Seq<char>,
    pub is_selected: bool,
    pub is_leaf: bool,
}

impl Forest {
    /// A numbering of the nodes in which parents come before children.
    pub open spec fn birth(self) -> Map<u128, nat> {
        choose|birth: Map<u128, nat>| self.ordered_by(birth)
    }

    /// How far below the node count the owner of a group is numbered. It
    /// shrinks on every step from a group to the group of one of its
    /// members, which makes descents end.
    pub open spec fn slack(self, owner: Option<u128>) -> nat {
        match owner {
            None => self.nodes.len() + 1,
            Some(p) => (self.nodes.len() - self.birth()[p]) as nat,
        }
    }

    /// The node reached from `id` by stepping to the last child until a
    /// node without children is met.
    pub open spec fn last_descendant(self, id: u128) -> u128
        decreases self.slack(Some(id)),
        when self.wf() && self.contains(id)
    {
        let children = self.group(Some(id));
        if children.len() == 0 {
            id
        } else {
            proof {
                self.lemma_slack_shrinks(Some(id), children.len() - 1);
            }
            self.last_descendant(children.last())
        }
    }

    /// The line shown for node `id` at `depth`.
    pub open spec fn line(self, id: u128, depth: nat, selected: Option<u128>) -> LineModel {
        LineModel {
            depth,
            id,
            name: self.nodes[id].name,
            is_selected: selected == Some(id),
            is_leaf: !self.nodes[id].is_folder(),
        }
    }

    /// The lines of the members of `owner`'s group from index `from` on,
    /// shown at `depth`: each member is followed by the lines of its own
    /// group one level deeper, then by the rest of its siblings.
    pub open spec fn lines_from(
        self,
        owner: Option<u128>,
        from: int,
        depth: nat,
        selected: Option<u128>,
    ) -> Seq<LineModel>
        decreases self.slack(owner), self.group(owner).len() - from,
        when self.wf() && self.owns_group(owner) && 0 <= from
    {
        let group = self.group(owner);
        if from >= group.len() {
            Seq::empty()
        } else {
            proof {
                self.lemma_slack_shrinks(owner, from);
            }
            seq![self.line(group[from], depth, selected)] + self.lines_from(
                Some(group[from]),
                0,
                depth + 1,
                selected,
            ) + self.lines_from(owner, from + 1, depth, selected)
        }
    }

    /// Every node of the forest in depth-first pre-order, top-level nodes
    /// at depth 0, with the line of `selected` marked.
    pub open spec fn visible_lines(self, selected: Option<u128>) -> Seq<LineModel> {
        self.lines_from(None, 0, 0, selected)
    }

    /// A member of a group is in the table, and its own group has less
    /// slack than the group it stands in.
    pub proof fn lemma_slack_shrinks(self, owner: Option<u128>, i: int)
        requires
            self.wf(),
            self.owns_group(owner),
            0 <= i < self.group(owner).len(),
        ensures
            self.contains(self.group(owner)[i]),
            self.owner_of(self.group(owner)[i]) == owner,
            0 < self.slack(Some(self.group(owner)[i])) < self.slack(owner),
    {
        let member = self.group(owner)[i];
        assert(self.contains(member) && self.owner_of(member) == owner);
        assert(self.ordered_by(self.birth()));
        assert(self.birth()[member] < self.nodes.len());
        if let Some(p) = owner {
            assert(self.birth()[p] < self.birth()[member]);
        }
    }
}

} // verus!
