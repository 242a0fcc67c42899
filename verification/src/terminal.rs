//! Terminal sessions under the editor, the assistant among them.

use vstd::prelude::*;

verus! {

/// A place in a session's text.
#[derive(Clone, Copy, PartialEq, Eq, Structural, Debug)]
pub struct Cell {
    pub line: usize,
    pub column: usize,
}

/// A selection in a session, from where it was begun to where it is.
#[derive(Clone, Copy, PartialEq, Eq, Structural, Debug)]
pub struct CellRange {
    pub from: Cell,
    pub to: Cell,
}

/// One session.
pub struct TerminalTab {
    pub title: String,
    pub claude: bool,
    /// Its program has ended.
    pub exited: bool,
}

/// The panel under the editor.
pub struct TerminalPanel {
    pub open: bool,
    /// Whether the keyboard is with the panel.
    pub focus: bool,
    /// How tall it was dragged, in hundredths of a point.
    pub height: i32,
    pub tabs: Vec<TerminalTab>,
    pub active: usize,
    /// How many lines the screen is scrolled back.
    pub back: usize,
    pub selection: Option<CellRange>,
    pub selecting: bool,
}

impl TerminalPanel {
    /// The active session is one of the sessions.
    pub open spec fn wf(&self) -> bool {
        self.tabs@.len() > 0 ==> self.active < self.tabs@.len()
    }

    /// Open, with the keyboard.
    pub open spec fn takes_keys(&self) -> bool {
        self.open && self.focus
    }
}

} // verus!
