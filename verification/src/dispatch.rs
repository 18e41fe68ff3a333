//! From a key press to the command that the outline carries out.

use crate::command::{binding, command_for_key, ChordState, Command, Mode, Outcome};
use crate::store::TreeStore;
use vstd::prelude::*;

verus! {

impl TreeStore {
    /// Carries out one command and says whether the front end goes on.
    ///
    /// Only tree mode reacts. While the chord is pending the press belongs
    /// to the chord: its own key completes it, any other key only puts it
    /// back at rest. Otherwise the command does its work.
    pub fn dispatch(&mut self, cmd: Command) -> (outcome: Outcome)
        requires
            old(self).well_formed(),
        ensures
            final(self).well_formed(),
            old(self)@.steps_to(cmd, final(self)@),
            outcome == old(self)@.outcome_of(cmd),
    {
        match self.mode {
            Mode::Tree => {},
            _ => {
                return Outcome::Continue;
            },
        }
        match self.chord {
            ChordState::PendingFirstKey => {
                match cmd {
                    Command::GoFirst => self.select_first_overall(),
                    _ => {
                        self.chord = ChordState::Idle;
                    },
                }
                Outcome::Continue
            },
            ChordState::Idle => {
                match cmd {
                    Command::AddChild => self.add_child_node(),
                    Command::AddSibling => self.add_sibling_node(),
                    Command::MoveDown => self.move_selection_down(),
                    Command::MoveUp => self.move_selection_up(),
                    Command::GoFirst => self.select_first_overall(),
                    Command::GoLast => self.select_last_overall(),
                    Command::Quit => {
                        return Outcome::Quit;
                    },
                    Command::Unbound => {},
                }
                Outcome::Continue
            },
        }
    }

    /// Carries out the command that the tree mode binds to `key`.
    pub fn handle_key(&mut self, key: char) -> (outcome: Outcome)
        requires
            old(self).well_formed(),
        ensures
            final(self).well_formed(),
            old(self)@.steps_to(binding(key), final(self)@),
            outcome == old(self)@.outcome_of(binding(key)),
    {
        self.dispatch(command_for_key(key))
    }
}

} // verus!
