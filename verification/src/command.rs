//! Modes, commands and the key bindings of the tree mode.

use vstd::prelude::*;

verus! {

/// The editing mode. Only `Tree` reacts to commands; the other two are
/// named so that a front end can show them.
#[derive(Debug, Clone, Copy, PartialEq, Eq, Structural)]
pub enum Mode {
    Tree,
    Normal,
    Insert,
}

/// Where the two-press "go to first" chord stands.
#[derive(Debug, Clone, Copy, PartialEq, Eq, Structural)]
pub enum ChordState {
    /// No chord is under way.
    Idle,
    /// The chord's key was pressed once and waits for its second press.
    PendingFirstKey,
}

/// What one key press asks of the outline.
#[derive(Debug, Clone, Copy, PartialEq, Eq, Structural)]
pub enum Command {
    AddChild,
    AddSibling,
    MoveDown,
    MoveUp,
    /// One press of the chord key; two in a row select the first root.
    GoFirst,
    GoLast,
    Quit,
    /// A key that the tree mode does not bind.
    Unbound,
}

/// Whether the front end goes on reading keys after a command.
#[derive(Debug, Clone, Copy, PartialEq, Eq, Structural)]
pub enum Outcome {
    Continue,
    Quit,
}

/// The key bindings of the tree mode.
pub open spec fn binding(key: char) -> Command {
    if key == 'A' {
        Command::AddChild
    } else if key == 'a' {
        Command::AddSibling
    } else if key == 'j' {
        Command::MoveDown
    } else if key == 'k' {
        Command::MoveUp
    } else if key == 'g' {
        Command::GoFirst
    } else if key == 'G' {
        Command::GoLast
    } else if key == 'q' {
        Command::Quit
    } else {
        Command::Unbound
    }
}

/// Looks a key up in the bindings of the tree mode.
pub fn command_for_key(key: char) -> (cmd: Command)
    ensures
        cmd == binding(key),
{
    match key {
        'A' => Command::AddChild,
        'a' => Command::AddSibling,
        'j' => Command::MoveDown,
        'k' => Command::MoveUp,
        'g' => Command::GoFirst,
        'G' => Command::GoLast,
        'q' => Command::Quit,
        _ => Command::Unbound,
    }
}

impl Mode {
    /// The word that a status line shows for the mode.
    pub open spec fn label_text(self) -> Seq<char> {
        match self {
            Mode::Tree => "TREE"@,
            Mode::Normal => "NORMAL"@,
            Mode::Insert => "INSERT"@,
        }
    }

    pub fn label(&self) -> (text: &'static str)
        ensures
            text@ == self.label_text(),
    {
        match self {
            Mode::Tree => "TREE",
            Mode::Normal => "NORMAL",
            Mode::Insert => "INSERT",
        }
    }
}

} // verus!
