//! What holds of every well-formed outline and of every run of commands.

use crate::command::{ChordState, Command, Mode};
use crate::forest::{position, Forest};
use crate::outline::Outline;
use crate::upkeep::{lemma_graft_groups, lemma_graft_keeps_wf};
use vstd::prelude::*;

verus! {

impl Forest {
    /// A path leads from a top-level node down through child lists.
    pub open spec fn is_path(self, path: Seq<u128>) -> bool {
        &&& path.len() > 0
        &&& self.roots.contains(path[0])
        &&& forall|i: int|
            0 < i < path.len() ==> self.contains(path[i - 1]) && self.group(
                Some(path[i - 1]),
            ).contains(#[trigger] path[i])
    }

    /// The node `up` parent links above `id`, if the chain is that long.
    pub open spec fn ancestor(self, id: u128, up: nat) -> Option<u128>
        decreases up,
    {
        if up == 0 {
            Some(id)
        } else {
            match self.ancestor(id, (up - 1) as nat) {
                Some(below) => if self.contains(below) {
                    self.owner_of(below)
                } else {
                    None
                },
                None => None,
            }
        }
    }

    /// The last node of a path is in the table; it is a top-level node
    /// when the path has one node, and a child of the node before it
    /// otherwise.
    pub proof fn lemma_path_end(self, path: Seq<u128>)
        requires
            self.wf(),
            self.is_path(path),
        ensures
            self.contains(path.last()),
            self.owner_of(path.last()) == if path.len() == 1 {
                None
            } else {
                Some(path[path.len() - 2])
            },
    {
        // The path says in which group its last node stands; the links
        // say that a member of a group is in the table, under that owner.
        let owner: Option<u128> = if path.len() == 1 {
            None
        } else {
            Some(path[path.len() - 2])
        };
        let group = self.group(owner);
        assert(group.contains(path.last()));
        let i = choose|i: int| 0 <= i < group.len() && group[i] == path.last();
        assert(self.contains(group[i]));
    }

    /// Two paths that end at the same node are the same path: every node
    /// is reached from the top level in exactly one way.
    pub proof fn lemma_one_path_per_node(self, first: Seq<u128>, second: Seq<u128>)
        requires
            self.wf(),
            self.is_path(first),
            self.is_path(second),
            first.last() == second.last(),
        ensures
            first == second,
        decreases first.len(),
    {
        // The last node tells whether the path has one node or more, and
        // which node comes before it.
        self.lemma_path_end(first);
        self.lemma_path_end(second);
        if first.len() == 1 {
            assert(first =~= second);
        } else {
            assert(self.is_path(first.drop_last()));
            assert(self.is_path(second.drop_last()));
            self.lemma_one_path_per_node(first.drop_last(), second.drop_last());
            assert(first =~= first.drop_last().push(first.last()));
            assert(second =~= second.drop_last().push(second.last()));
        }
    }

    /// Every node of the table is reached by a path from the top level.
    pub proof fn lemma_every_node_has_a_path(self, id: u128) -> (path: Seq<u128>)
        requires
            self.wf(),
            self.contains(id),
        ensures
            self.is_path(path),
            path.last() == id,
        decreases self.birth()[id],
    {
        match self.owner_of(id) {
            None => seq![id],
            Some(parent) => {
                let above = self.lemma_every_node_has_a_path(parent);
                above.push(id)
            },
        }
    }

    /// An ancestor is a node of the table that was numbered at least as
    /// many places before its descendant as it stands above it.
    pub proof fn lemma_ancestor_is_older(self, id: u128, up: nat)
        requires
            self.wf(),
            self.contains(id),
        ensures
            self.ancestor(id, up) matches Some(above) ==> self.contains(above)
                && self.birth()[above] + up <= self.birth()[id],
        decreases up,
    {
        if up > 0 {
            self.lemma_ancestor_is_older(id, (up - 1) as nat);
        }
    }

    /// No node is its own ancestor: the parent links hold no cycle.
    pub proof fn lemma_no_node_is_its_own_ancestor(self, id: u128, up: nat)
        requires
            self.wf(),
            self.contains(id),
            up > 0,
        ensures
            self.ancestor(id, up) != Some(id),
    {
        self.lemma_ancestor_is_older(id, up);
    }

    /// The last descendant of a node is a node of the table without
    /// children.
    pub proof fn lemma_last_descendant_is_childless(self, id: u128)
        requires
            self.wf(),
            self.contains(id),
        ensures
            self.contains(self.last_descendant(id)),
            self.group(Some(self.last_descendant(id))).len() == 0,
        decreases self.slack(Some(id)),
    {
        let children = self.group(Some(id));
        if children.len() > 0 {
            self.lemma_slack_shrinks(Some(id), children.len() - 1);
            self.lemma_last_descendant_is_childless(children.last());
        }
    }
}

impl Outline {
    /// The selection of a well-formed outline names a node of the table.
    pub proof fn lemma_selection_resolves(self)
        requires
            self.wf(),
        ensures
            self.selected matches Some(id) ==> self.forest.contains(id),
    {
    }

    /// In a well-formed outline the selection stands in its sibling group
    /// at the index that `position` names, and nowhere else.
    pub proof fn lemma_selection_position(self, id: u128)
        requires
            self.wf(),
            self.selected == Some(id),
        ensures
            self.forest.owns_group(self.selected_owner()),
            0 <= position(self.selected_group(), id) < self.selected_group().len(),
            self.selected_group()[position(self.selected_group(), id)] == id,
            forall|i: int|
                0 <= i < self.selected_group().len() && self.selected_group()[i] == id ==> i
                    == position(self.selected_group(), id),
    {
        let group = self.selected_group();
        assert(group.contains(id) && group.no_duplicates());
    }

    /// Every command leaves a well-formed outline well formed; with it,
    /// the selection still names a node of the table.
    pub proof fn lemma_step_keeps_wf(self, cmd: Command, next: Outline)
        requires
            self.wf(),
            self.steps_to(cmd, next),
        ensures
            next.wf(),
            next.selected matches Some(id) ==> next.forest.contains(id),
    {
        if self.mode != Mode::Tree {
        } else if self.chord == ChordState::PendingFirstKey {
            self.lemma_first_pressed_keeps_wf();
        } else {
            match cmd {
                Command::AddChild => {
                    lemma_graft_keeps_wf(self.forest, self.selected, next.selected.unwrap());
                    lemma_graft_groups(self.forest, self.selected, next.selected.unwrap());
                },
                Command::AddSibling => {
                    let owner = self.selected_owner();
                    lemma_graft_keeps_wf(self.forest, owner, next.selected.unwrap());
                    lemma_graft_groups(self.forest, owner, next.selected.unwrap());
                },
                Command::MoveDown => {
                    self.lemma_moved_keeps_wf(1);
                },
                Command::MoveUp => {
                    self.lemma_moved_keeps_wf(-1);
                },
                Command::GoFirst => {
                    self.lemma_first_pressed_keeps_wf();
                },
                Command::GoLast => {
                    if self.forest.roots.len() > 0 {
                        self.forest.lemma_slack_shrinks(None, self.forest.roots.len() - 1);
                        self.forest.lemma_last_descendant_is_childless(self.forest.roots.last());
                    }
                },
                Command::Quit => {},
                Command::Unbound => {},
            }
        }
    }

    /// Whether `states` is what the outline looked like before, between and
    /// after the presses of `cmds`, in order.
    pub open spec fn is_run(states: Seq<Outline>, cmds: Seq<Command>) -> bool {
        &&& states.len() == cmds.len() + 1
        &&& forall|i: int|
            0 <= i < cmds.len() ==> (#[trigger] states[i]).steps_to(cmds[i], states[i + 1])
    }

    /// Whatever commands are pressed in whatever order, a run that starts
    /// well formed stays so: after every command the links agree, the
    /// parent links hold no cycle and the selection names a node of the
    /// table.
    pub proof fn lemma_run_stays_wf(states: Seq<Outline>, cmds: Seq<Command>)
        requires
            Self::is_run(states, cmds),
            states[0].wf(),
        ensures
            forall|i: int| 0 <= i < states.len() ==> (#[trigger] states[i]).wf(),
        decreases cmds.len(),
    {
        if cmds.len() > 0 {
            let last = cmds.len() - 1;
            Self::lemma_run_stays_wf(states.drop_last(), cmds.drop_last());
            assert(states.drop_last()[last] == states[last]);
            states[last].lemma_step_keeps_wf(cmds[last], states[last + 1]);
            assert forall|i: int| 0 <= i < states.len() implies (#[trigger] states[i]).wf() by {
                if i < states.len() - 1 {
                    assert(states.drop_last()[i] == states[i]);
                }
            }
        }
    }

    /// The outline with nothing in it is well formed.
    pub proof fn lemma_empty_is_wf()
        ensures
            Outline::empty().wf(),
    {
        assert(Outline::empty().forest.ordered_by(Map::<u128, nat>::empty()));
    }

    /// After any commands in any order, starting from the empty outline,
    /// every node that a path from the top level reaches is reached by
    /// that path alone, no node is its own ancestor, and the selection
    /// names a node of the table.
    pub proof fn lemma_runs_grow_forests(
        states: Seq<Outline>,
        cmds: Seq<Command>,
        first: Seq<u128>,
        second: Seq<u128>,
        id: u128,
        up: nat,
    )
        requires
            Self::is_run(states, cmds),
            states[0] == Outline::empty(),
        ensures
            states.last().forest.is_path(first) && states.last().forest.is_path(second)
                && first.last() == second.last() ==> first == second,
            states.last().forest.contains(id) && up > 0 ==> states.last().forest.ancestor(id, up)
                != Some(id),
            states.last().selected matches Some(chosen) ==> states.last().forest.contains(chosen),
    {
        Self::lemma_empty_is_wf();
        Self::lemma_run_stays_wf(states, cmds);
        let forest = states.last().forest;
        if forest.is_path(first) && forest.is_path(second) && first.last() == second.last() {
            forest.lemma_one_path_per_node(first, second);
        }
        if forest.contains(id) && up > 0 {
            forest.lemma_no_node_is_its_own_ancestor(id, up);
        }
    }

    /// Moving the selection within its group keeps the outline well formed.
    pub proof fn lemma_moved_keeps_wf(self, delta: int)
        requires
            self.wf(),
        ensures
            self.moved(delta).wf(),
    {
        if let Some(id) = self.selected {
            self.lemma_selection_position(id);
        }
    }

    /// A press of the chord key keeps the outline well formed.
    pub proof fn lemma_first_pressed_keeps_wf(self)
        requires
            self.wf(),
        ensures
            self.first_pressed().wf(),
    {
        if self.forest.roots.len() > 0 {
            assert(self.forest.contains(self.forest.group(None)[0]));
        }
    }

    /// Adding a child to an outline without nodes gives exactly one
    /// top-level node, which is selected.
    pub proof fn lemma_first_child_is_the_only_root(self, id: u128)
        requires
            self.wf(),
            self.forest.nodes.dom() == Set::<u128>::empty(),
        ensures
            self.with_child(id).forest.roots == seq![id],
            self.with_child(id).forest.nodes.dom() == set![id],
            self.with_child(id).forest.owner_of(id) is None,
            self.with_child(id).selected == Some(id),
    {
        // A table without nodes has no top-level node and no selection.
        if self.forest.roots.len() > 0 {
            assert(self.forest.contains(self.forest.group(None)[0]));
        }
    }

    /// A sibling added while a child of `parent` is selected goes to the
    /// end of `parent`'s children, wherever in the list the selection
    /// stands, and is selected.
    pub proof fn lemma_sibling_goes_last(self, chosen: u128, parent: u128, id: u128)
        requires
            self.wf(),
            self.selected == Some(chosen),
            self.forest.owner_of(chosen) == Some(parent),
            !self.forest.contains(id),
        ensures
            self.with_sibling(id).forest.group(Some(parent)) == self.forest.group(
                Some(parent),
            ).push(id),
            self.with_sibling(id).selected == Some(id),
            self.with_sibling(id).forest.owner_of(id) == Some(parent),
    {
        assert(self.forest.owns_group(self.forest.owner_of(chosen)));
        lemma_graft_groups(self.forest, Some(parent), id);
    }

    /// Moving down from the last node of a sibling group changes neither
    /// the selection nor the forest.
    pub proof fn lemma_down_at_last_stays(self, id: u128)
        requires
            self.wf(),
            self.selected == Some(id),
            self.selected_group().last() == id,
        ensures
            self.moved_down().selected == self.selected,
            self.moved_down().forest == self.forest,
    {
        self.lemma_selection_position(id);
    }

    /// Moving up from the first node of a sibling group changes neither
    /// the selection nor the forest.
    pub proof fn lemma_up_at_first_stays(self, id: u128)
        requires
            self.wf(),
            self.selected == Some(id),
            self.selected_group()[0] == id,
        ensures
            self.moved_up().selected == self.selected,
            self.moved_up().forest == self.forest,
    {
        self.lemma_selection_position(id);
    }

    /// Two presses of the chord key in a row leave the first top-level
    /// node selected, if the outline has one, whatever was selected before
    /// and wherever the chord stood.
    pub proof fn lemma_chord_key_twice_selects_first(self)
        requires
            self.forest.roots.len() > 0,
        ensures
            self.first_pressed().first_pressed().selected == Some(self.forest.roots[0]),
            self.first_pressed().first_pressed().forest == self.forest,
            self.chord == ChordState::Idle ==> self.first_pressed().selected == self.selected,
    {
    }

    /// In tree mode, two presses of the chord key in a row select the
    /// first top-level node of an outline that has one.
    pub proof fn lemma_two_presses_select_first(self, once: Outline, twice: Outline)
        requires
            self.mode == Mode::Tree,
            self.forest.roots.len() > 0,
            self.steps_to(Command::GoFirst, once),
            once.steps_to(Command::GoFirst, twice),
        ensures
            twice.selected == Some(self.forest.roots[0]),
            twice.forest == self.forest,
    {
    }

    /// One press of the chord key followed by any other key changes no
    /// selection: the second key only puts the chord back at rest.
    pub proof fn lemma_broken_chord_changes_nothing(
        self,
        once: Outline,
        other: Command,
        after: Outline,
    )
        requires
            self.chord == ChordState::Idle,
            other != Command::GoFirst,
            self.steps_to(Command::GoFirst, once),
            once.steps_to(other, after),
        ensures
            after == self,
    {
    }
}

} // verus!
