//! The logic of a code editor's window.
//!
//! An [`EditorView`](state::EditorView) holds everything the window knows: the
//! panes and their documents, the fields that can take the keyboard, the tree,
//! source control, the terminal, the language servers and the assistant. Its
//! methods take what happened, change that state, and write down in order what
//! has to be done outside, as [`Effect`](state::Effect)s. Drawing, files,
//! processes and the system's own panels are the caller's: what they find
//! comes back as arguments.
//!
//! Every function says in its contract what it changes and what it asks for.
//! Times are milliseconds, measures hundredths of a point, and texts UTF-8.
pub mod accounts;
pub mod actions;
pub mod ask;
pub mod bridge;
pub mod buffer;
pub mod claude;
pub mod clicks;
pub mod clipboard;
pub mod completion;
pub mod conduct;
pub mod cursors;
pub mod dealings;
pub mod delegate;
pub mod diagnostics;
pub mod disk;
pub mod documents;
pub mod edit;
pub mod events;
pub mod files;
pub mod find;
pub mod focus;
pub mod folding;
pub mod formatting;
pub mod frame;
pub mod gestures;
pub mod git;
pub mod goto_line;
pub mod guarantees;
pub mod gutter;
pub mod host;
pub mod http;
pub mod ignore;
pub mod input;
pub mod jump;
pub mod keeping;
pub mod keyboard;
pub mod keys;
pub mod labels;
pub mod launch;
pub mod link;
pub mod menu;
pub mod mouse;
pub mod moves;
pub mod outcomes;
pub mod pacing;
pub mod palette;
pub mod panes;
pub mod path;
pub mod places;
pub mod pointer;
pub mod project;
pub mod project_search;
pub mod promises;
pub mod readout;
pub mod recovery;
pub mod references;
pub mod rename;
pub mod render;
pub mod replace;
pub mod replacing;
pub mod save;
pub mod selftest;
pub mod servers;
pub mod session;
pub mod sessions;
pub mod settings;
pub mod sidebar;
pub mod state;
pub mod suggest;
pub mod table;
pub mod tabs;
pub mod terminal;
pub mod text;
pub mod trash;
