//! A keyboard-driven outline: a forest of named nodes held in one table,
//! with a single selection that the navigation commands move around.
//!
//! The table is the sole owner of the nodes; parent and child links are
//! identifiers that are looked up, never followed as owning pointers.
//! Every operation is total and keeps the forest well formed.
//!
//! [`app::App`] is the way in. Its contracts speak of
//! [`outline::Outline`], the state as a mathematical value, on which the
//! commands are plain functions and the laws of [`laws`] are proved.

/// The outline behind its invariant.
pub mod app;
/// Modes, commands and key bindings.
pub mod command;
/// The visible lines list every node exactly once.
pub mod coverage;
/// The deepest last node and the pre-order sequence of lines.
pub mod descent;
/// From a key press to the command carried out.
pub mod dispatch;
/// The node table and the top-level list as a mathematical value.
pub mod forest;
/// Node identifiers.
pub mod ident;
/// What holds of every well-formed outline and every run of commands.
pub mod laws;
/// One entry of the outline.
pub mod node;
/// The whole state as a mathematical value, with the commands.
pub mod outline;
/// The state in the open, with the invariant as a precondition.
pub mod store;
/// The visible lines, computed.
pub mod traverse;
/// Growing the forest keeps it well formed.
pub mod upkeep;
