//! The visible lines list every node of the forest exactly once, each at
//! the depth at which it stands.

use crate::descent::LineModel;
use crate::forest::Forest;
use vstd::prelude::*;

verus! {

impl Forest {
    /// The member of `owner`'s group that is `id` or stands above `id`,
    /// if there is one.
    pub open spec fn member_above(self, owner: Option<u128>, id: u128) -> Option<u128>
        decreases self.birth()[id],
        when self.wf() && self.contains(id)
    {
        if self.owner_of(id) == owner {
            Some(id)
        } else {
            match self.owner_of(id) {
                None => None,
                Some(parent) => {
                    proof {
                        self.lemma_parent_is_older(id);
                    }
                    self.member_above(owner, parent)
                },
            }
        }
    }

    /// The number of parent links from `id` up to the member of `owner`'s
    /// group that is `id` or stands above it.
    pub open spec fn rise(self, owner: Option<u128>, id: u128) -> nat
        decreases self.birth()[id],
        when self.wf() && self.contains(id)
    {
        if self.owner_of(id) == owner {
            0
        } else {
            match self.owner_of(id) {
                None => 0,
                Some(parent) => {
                    proof {
                        self.lemma_parent_is_older(id);
                    }
                    1 + self.rise(owner, parent)
                },
            }
        }
    }

    /// The number of parent links from `id` up to its top-level ancestor.
    pub open spec fn depth_of(self, id: u128) -> nat {
        self.rise(None, id)
    }

    /// Whether the lines of `owner`'s group from index `from` on list
    /// `id`: `id` is in the table and is, or stands below, a member of the
    /// group at index `from` or later.
    pub open spec fn shown(self, owner: Option<u128>, from: int, id: u128) -> bool {
        &&& self.contains(id)
        &&& self.member_above(owner, id) matches Some(member)
        &&& exists|i: int|
            from <= i < self.group(owner).len() && #[trigger] self.group(owner)[i] == member
    }

    /// The parent of a node is in the table and was numbered before it.
    pub proof fn lemma_parent_is_older(self, id: u128)
        requires
            self.wf(),
            self.contains(id),
        ensures
            self.owner_of(id) matches Some(parent) ==> self.contains(parent) && self.birth()[parent]
                < self.birth()[id],
    {
        assert(self.ordered_by(self.birth()));
        assert(self.owns_group(self.owner_of(id)));
    }

    /// The member above a node is a member of the group asked for, and is
    /// not younger than the node.
    proof fn lemma_member_above(self, owner: Option<u128>, id: u128)
        requires
            self.wf(),
            self.contains(id),
        ensures
            self.member_above(owner, id) matches Some(member) ==> self.contains(member)
                && self.owner_of(member) == owner && self.birth()[member] <= self.birth()[id]
                && self.group(owner).contains(member),
            owner is None ==> self.member_above(owner, id) is Some,
        decreases self.birth()[id],
    {
        self.lemma_parent_is_older(id);
        if self.owner_of(id) == owner {
            assert(self.group(self.owner_of(id)).contains(id));
        } else if let Some(parent) = self.owner_of(id) {
            self.lemma_member_above(owner, parent);
        }
    }

    /// What is listed below a member `top` of a group is listed under
    /// `top` in that group, one level higher up.
    proof fn lemma_below(self, top: u128, id: u128)
        requires
            self.wf(),
            self.contains(top),
            self.contains(id),
            self.member_above(Some(top), id) is Some,
        ensures
            self.member_above(self.owner_of(top), id) == Some(top),
            self.rise(self.owner_of(top), id) == self.rise(Some(top), id) + 1,
            self.birth()[top] < self.birth()[id],
        decreases self.birth()[id],
    {
        self.lemma_parent_is_older(id);
        self.lemma_parent_is_older(top);
        if self.owner_of(id) == Some(top) {
            assert(self.member_above(self.owner_of(top), top) == Some(top));
            assert(self.rise(self.owner_of(top), top) == 0);
        } else {
            let parent = self.owner_of(id).unwrap();
            self.lemma_below(top, parent);
        }
    }

    /// A node listed under a member `top` of a group, other than `top`
    /// itself, is listed below `top`.
    proof fn lemma_under(self, owner: Option<u128>, top: u128, id: u128)
        requires
            self.wf(),
            self.contains(id),
            self.member_above(owner, id) == Some(top),
            id != top,
        ensures
            self.shown(Some(top), 0, id),
        decreases self.birth()[id],
    {
        self.lemma_parent_is_older(id);
        let parent = self.owner_of(id).unwrap();
        if parent != top {
            self.lemma_under(owner, top, parent);
        }
        self.lemma_member_above(Some(top), id);
        self.lemma_member_above(owner, id);
        let member = self.member_above(Some(top), id).unwrap();
        let i = choose|i: int|
            0 <= i < self.group(Some(top)).len() && self.group(Some(top))[i] == member;
        assert(self.group(Some(top))[i] == member);
    }

    /// The lines of a group from `from` on list exactly the nodes that
    /// `shown` names, each once and at the depth at which it stands.
    proof fn lemma_lines_from(
        self,
        owner: Option<u128>,
        from: int,
        depth: nat,
        selected: Option<u128>,
    )
        requires
            self.wf(),
            self.owns_group(owner),
            0 <= from <= self.group(owner).len(),
        ensures
            forall|j: int|
                0 <= j < self.lines_from(owner, from, depth, selected).len() ==> {
                    let line = #[trigger] self.lines_from(owner, from, depth, selected)[j];
                    &&& self.shown(owner, from, line.id)
                    &&& line == self.line(line.id, depth + self.rise(owner, line.id), selected)
                },
            forall|id: u128|
                self.shown(owner, from, id) ==> exists|j: int|
                    0 <= j < self.lines_from(owner, from, depth, selected).len()
                        && #[trigger] self.lines_from(owner, from, depth, selected)[j].id == id,
            forall|j: int, k: int|
                0 <= j < k < self.lines_from(owner, from, depth, selected).len()
                    ==> #[trigger] self.lines_from(owner, from, depth, selected)[j].id
                    != #[trigger] self.lines_from(owner, from, depth, selected)[k].id,
        decreases self.slack(owner), self.group(owner).len() - from,
    {
        let group = self.group(owner);
        let all = self.lines_from(owner, from, depth, selected);
        if from < group.len() {
            let top = group[from];
            self.lemma_slack_shrinks(owner, from);
            let below = self.lines_from(Some(top), 0, depth + 1, selected);
            let after = self.lines_from(owner, from + 1, depth, selected);
            self.lemma_lines_from(Some(top), 0, depth + 1, selected);
            self.lemma_lines_from(owner, from + 1, depth, selected);
            assert(all == seq![self.line(top, depth, selected)] + below + after);
            assert(self.member_above(owner, top) == Some(top));
            assert(self.rise(owner, top) == 0);
            assert(self.shown(owner, from, top)) by {
                assert(group[from] == top);
            }
            assert(group.no_duplicates());

            // What each part lists, as seen from the whole group.
            assert forall|j: int| 0 <= j < below.len() implies {
                let line = #[trigger] below[j];
                &&& self.shown(owner, from, line.id)
                &&& self.member_above(owner, line.id) == Some(top)
                &&& line.id != top
                &&& line == self.line(line.id, depth + self.rise(owner, line.id), selected)
            } by {
                let line = below[j];
                assert(self.shown(Some(top), 0, line.id));
                self.lemma_below(top, line.id);
                assert(group[from] == top);
            }
            assert forall|j: int| 0 <= j < after.len() implies {
                let line = #[trigger] after[j];
                &&& self.shown(owner, from, line.id)
                &&& self.member_above(owner, line.id) != Some(top)
                &&& line == self.line(line.id, depth + self.rise(owner, line.id), selected)
            } by {
                let line = after[j];
                assert(self.shown(owner, from + 1, line.id));
                let member = self.member_above(owner, line.id).unwrap();
                let i = choose|i: int| from + 1 <= i < group.len() && group[i] == member;
                assert(group[i] == member);
            }

            assert forall|j: int| 0 <= j < all.len() implies {
                let line = #[trigger] all[j];
                &&& self.shown(owner, from, line.id)
                &&& line == self.line(line.id, depth + self.rise(owner, line.id), selected)
            } by {
                if j == 0 {
                } else if j < 1 + below.len() {
                    assert(all[j] == below[j - 1]);
                } else {
                    assert(all[j] == after[j - 1 - below.len()]);
                }
            }

            assert forall|id: u128| self.shown(owner, from, id) implies exists|j: int|
                0 <= j < all.len() && #[trigger] all[j].id == id by {
                let member = self.member_above(owner, id).unwrap();
                let i = choose|i: int| from <= i < group.len() && group[i] == member;
                if i > from {
                    assert(self.shown(owner, from + 1, id)) by {
                        assert(group[i] == member);
                    }
                    let j = choose|j: int| 0 <= j < after.len() && #[trigger] after[j].id == id;
                    assert(all[1 + below.len() + j] == after[j]);
                } else if id == top {
                    assert(all[0].id == id);
                } else {
                    self.lemma_under(owner, top, id);
                    let j = choose|j: int| 0 <= j < below.len() && #[trigger] below[j].id == id;
                    assert(all[1 + j] == below[j]);
                }
            }

            assert forall|j: int, k: int| 0 <= j < k < all.len() implies #[trigger] all[j].id
                != #[trigger] all[k].id by {
                let split = 1 + below.len();
                if j == 0 {
                    if k < split {
                        assert(all[k] == below[k - 1]);
                    } else {
                        assert(all[k] == after[k - split]);
                    }
                } else if j < split {
                    assert(all[j] == below[j - 1]);
                    if k < split {
                        assert(all[k] == below[k - 1]);
                    } else {
                        assert(all[k] == after[k - split]);
                    }
                } else {
                    assert(all[j] == after[j - split]);
                    assert(all[k] == after[k - split]);
                }
            }
        } else {
            assert(all =~= Seq::<LineModel>::empty());
            assert forall|id: u128| self.shown(owner, from, id) implies false by {
            }
        }
    }

    /// The visible lines list every node of the table exactly once, each
    /// with its own name and marks, at the depth at which it stands: as
    /// many lines as there are nodes.
    pub proof fn lemma_lines_list_every_node_once(self, selected: Option<u128>)
        requires
            self.wf(),
        ensures
            self.visible_lines(selected).len() == self.nodes.len(),
            forall|j: int|
                0 <= j < self.visible_lines(selected).len() ==> {
                    let line = #[trigger] self.visible_lines(selected)[j];
                    &&& self.contains(line.id)
                    &&& line == self.line(line.id, self.depth_of(line.id), selected)
                },
            forall|id: u128|
                self.contains(id) ==> exists|j: int|
                    0 <= j < self.visible_lines(selected).len() && #[trigger] self.visible_lines(
                        selected,
                    )[j].id == id,
            forall|j: int, k: int|
                0 <= j < k < self.visible_lines(selected).len() ==> #[trigger] self.visible_lines(
                    selected,
                )[j].id != #[trigger] self.visible_lines(selected)[k].id,
    {
        let lines = self.visible_lines(selected);
        self.lemma_lines_from(None, 0, 0, selected);
        assert forall|id: u128| self.contains(id) implies self.shown(None, 0, id) by {
            self.lemma_member_above(None, id);
            let member = self.member_above(None, id).unwrap();
            let i = choose|i: int| 0 <= i < self.group(None).len() && self.group(None)[i] == member;
            assert(self.group(None)[i] == member);
        }
        let ids = lines.map_values(|line: LineModel| line.id);
        assert(ids.no_duplicates()) by {
            assert forall|j: int, k: int| 0 <= j < ids.len() && 0 <= k < ids.len() && j
                != k implies ids[j] != ids[k] by {
                if j < k {
                    assert(lines[j].id != lines[k].id);
                } else {
                    assert(lines[k].id != lines[j].id);
                }
            }
        }
        assert(ids.to_set() =~= self.nodes.dom()) by {
            assert forall|id: u128| self.nodes.dom().contains(id) implies ids.to_set().contains(
                id,
            ) by {
                let j = choose|j: int| 0 <= j < lines.len() && #[trigger] lines[j].id == id;
                assert(ids[j] == id);
            }
            assert forall|id: u128| ids.to_set().contains(id) implies self.nodes.dom().contains(
                id,
            ) by {
                let j = choose|j: int| 0 <= j < ids.len() && ids[j] == id;
                assert(self.shown(None, 0, lines[j].id));
            }
        }
        ids.unique_seq_to_set();
    }
}

} // verus!
