//! Engine for line-oriented action scripts: a small language of filesystem
//! commands (`dir`, `mkdir`, `make`, `print`, `move`, `chmod`) that can be
//! executed forward or undone in reverse.
//!
//! The library is the pure core: it parses script text into commands, plans
//! forward execution, and plans reverse execution (a replay pass that
//! reconstructs the navigation history, and an undo pass that inverts each
//! command in reverse line order). Performing the planned filesystem actions
//! is left to the caller.

use vstd::prelude::*;

pub mod command;
pub mod forward;
pub mod model;
pub mod reverse;
pub mod script;
pub mod text;

verus! {

/// The grammar's whitespace characters: ASCII whitespace. Tokens are the
/// maximal runs of non-whitespace characters of a line.
pub open spec fn is_space_char(c: char) -> bool {
    c == ' ' || c == '\t' || c == '\n' || c == '\r' || c == '\u{b}' || c == '\u{c}'
}

} // verus!
