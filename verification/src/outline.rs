//! The outline as a mathematical value: the forest, the selection, the
//! chord state and the mode, with the commands as functions on it.

use crate::command::{ChordState, Command, Mode, Outcome};
use crate::descent::LineModel;
use crate::forest::{position, Forest};
use vstd::prelude::*;

verus! {

/// The state of the outline.
pub struct Outline {
    pub forest: Forest,
    pub selected: Option<u128>,
    pub chord: ChordState,
    pub mode: Mode,
    pub tree_focused: bool,
}

impl Outline {
    /// The outline with nothing in it, in tree mode.
    pub open spec fn empty() -> Outline {
        Outline {
            forest: Forest::empty(),
            selected: None,
            chord: ChordState::Idle,
            mode: Mode::Tree,
            tree_focused: true,
        }
    }

    /// The selection, if there is one, is a node of the table.
    pub open spec fn selection_resolves(self) -> bool {
        self.selected matches Some(id) ==> self.forest.contains(id)
    }

    /// The invariant of the outline.
    pub open spec fn wf(self) -> bool {
        &&& self.forest.wf()
        &&& self.selection_resolves()
    }

    /// The owner of the selection's group; the top level when nothing is
    /// selected.
    pub open spec fn selected_owner(self) -> Option<u128> {
        match self.selected {
            Some(id) => self.forest.owner_of(id),
            None => None,
        }
    }

    /// The sibling group in which the selection stands; the top-level
    /// nodes when nothing is selected.
    pub open spec fn selected_group(self) -> Seq<u128> {
        self.forest.group(self.selected_owner())
    }

    /// The outline with the chord back at rest.
    pub open spec fn at_rest(self) -> Outline {
        Outline { chord: ChordState::Idle, ..self }
    }

    /// The outline with `id` selected and the chord at rest.
    pub open spec fn select(self, id: u128) -> Outline {
        Outline { selected: Some(id), chord: ChordState::Idle, ..self }
    }

    /// A new empty folder `id` appended to the group of `owner` and
    /// selected.
    pub open spec fn attach(self, owner: Option<u128>, id: u128) -> Outline {
        Outline {
            forest: self.forest.graft(owner, id),
            selected: Some(id),
            chord: ChordState::Idle,
            ..self
        }
    }

    /// A new folder `id` as the last child of the selection, or as the last
    /// top-level node when nothing is selected.
    pub open spec fn with_child(self, id: u128) -> Outline {
        self.attach(self.selected, id)
    }

    /// A new folder `id` at the end of the selection's sibling group, or as
    /// the last top-level node when nothing is selected.
    pub open spec fn with_sibling(self, id: u128) -> Outline {
        self.attach(self.selected_owner(), id)
    }

    /// The selection moved by `delta` places within its sibling group; at
    /// the end of the group, or with nothing selected, it stays.
    pub open spec fn moved(self, delta: int) -> Outline {
        match self.selected {
            None => self.at_rest(),
            Some(id) => {
                let group = self.selected_group();
                let target = position(group, id) + delta;
                if 0 <= target < group.len() {
                    self.select(group[target])
                } else {
                    self.at_rest()
                }
            },
        }
    }

    /// The selection moved to the next node of its sibling group.
    pub open spec fn moved_down(self) -> Outline {
        self.moved(1)
    }

    /// The selection moved to the previous node of its sibling group.
    pub open spec fn moved_up(self) -> Outline {
        self.moved(-1)
    }

    /// One press of the chord key: the first arms the chord, the second
    /// selects the first top-level node, if there is one.
    pub open spec fn first_pressed(self) -> Outline {
        match self.chord {
            ChordState::Idle => Outline { chord: ChordState::PendingFirstKey, ..self },
            ChordState::PendingFirstKey => if self.forest.roots.len() > 0 {
                self.select(self.forest.roots[0])
            } else {
                self.at_rest()
            },
        }
    }

    /// The outline with the deepest last node selected: the last
    /// descendant of the last top-level node. An empty outline keeps its
    /// selection.
    pub open spec fn last_selected(self) -> Outline {
        if self.forest.roots.len() == 0 {
            self.at_rest()
        } else {
            self.select(self.forest.last_descendant(self.forest.roots.last()))
        }
    }

    /// The text of the selected node; empty when nothing is selected or
    /// the selection is a folder.
    pub open spec fn selected_text(self) -> Seq<char> {
        match self.selected {
            Some(id) if self.forest.contains(id) => match self.forest.nodes[id].content {
                Some(text) => text,
                None => Seq::empty(),
            },
            _ => Seq::empty(),
        }
    }

    /// Whether a press is taken as the command it is bound to: the outline
    /// is in tree mode and no chord is under way. A press in another mode
    /// does nothing; a press while the chord is pending belongs to the
    /// chord.
    pub open spec fn listening(self) -> bool {
        self.mode == Mode::Tree && self.chord == ChordState::Idle
    }

    /// Whether the outline may look like `next` after a press of `cmd`.
    ///
    /// In tree mode with the chord at rest each command does its work; the
    /// identifier of an added node is any that the table did not hold.
    /// While the chord is pending, a second press of its key completes it
    /// and any other key only puts the chord back at rest. Outside tree
    /// mode a press changes nothing.
    pub open spec fn steps_to(self, cmd: Command, next: Outline) -> bool {
        if self.mode != Mode::Tree {
            next == self
        } else if self.chord == ChordState::PendingFirstKey {
            next == if cmd == Command::GoFirst {
                self.first_pressed()
            } else {
                self.at_rest()
            }
        } else {
            match cmd {
                Command::AddChild => next.selected matches Some(id) && !self.forest.contains(id)
                    && next == self.with_child(id),
                Command::AddSibling => next.selected matches Some(id) && !self.forest.contains(id)
                    && next == self.with_sibling(id),
                Command::MoveDown => next == self.moved_down(),
                Command::MoveUp => next == self.moved_up(),
                Command::GoFirst => next == self.first_pressed(),
                Command::GoLast => next == self.last_selected(),
                Command::Quit => next == self,
                Command::Unbound => next == self,
            }
        }
    }

    /// What the front end does after a press of `cmd`: it stops on the
    /// quit command while the outline is listening and goes on otherwise.
    pub open spec fn outcome_of(self, cmd: Command) -> Outcome {
        if self.listening() && cmd == Command::Quit {
            Outcome::Quit
        } else {
            Outcome::Continue
        }
    }

    /// Every node as one line, in depth-first pre-order, with the line of
    /// the selection marked.
    pub open spec fn visible_lines(self) -> Seq<LineModel> {
        self.forest.visible_lines(self.selected)
    }
}

} // verus!
