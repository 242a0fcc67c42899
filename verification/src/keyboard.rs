//! Where a key goes: to the terminal, a review, a field, a command, or the
//! document; and what it does to the document.

use crate::focus::{active_review, field_has_keys};
use crate::http;
use crate::keys::{self, EditOp, KeyEvent, Modifiers};
use crate::state::State;
use vstd::prelude::*;

verus! {

/// Where a key goes. The handlers further down the list see it only when
/// those before them do not take it.
#[derive(Clone, Copy, PartialEq, Eq, Structural, Debug)]
pub enum Route {
    /// Control and the grave key, whatever it types.
    ToggleTerminal,
    Terminal,
    /// Answering or scrolling a review.
    Review,
    /// Command, Option and G.
    OpenGit,
    /// Backspace with Command or Option in a field: to the start of it, or
    /// one word.
    FieldDelete(EditOp),
    Completion,
    FindReferences,
    GotoDefinition,
    StartRename,
    FormatDocument,
    ShowHover,
    RequestCompletion,
    SidebarEdit,
    Git,
    /// Escape with nothing else to leave.
    CloseSignature,
    CollapseCursors,
    RenameField,
    Goto,
    Palette,
    Find,
    /// A preview shows the file: nothing to edit.
    Preview,
    SendRequest,
    /// Navigation and deletion in the document.
    Document(EditOp),
    /// Command and a digit: straight to a tab, counted from zero.
    Tab(usize),
    /// A shortcut that is a menu's, or nobody's.
    Unhandled,
    /// Text, for the input system to work out.
    Text,
}

/// What a key does in the document, if it is one that moves or deletes.
///
/// Unlike letters, these take their meaning from the modifiers: Option is
/// word-wise, Command is line- or document-wise.
pub open spec fn navigation(event: KeyEvent, selected: bool) -> Option<EditOp> {
    let code = keys::plain_code(event.code);
    let motion = keys::motion_with(event.flags);
    let command = event.flags.command;
    let option = event.flags.option;
    if code == keys::LEFT {
        Some(
            if command {
                EditOp::LineStart(motion)
            } else if option {
                EditOp::WordLeft(motion)
            } else {
                EditOp::Left(motion)
            },
        )
    } else if code == keys::RIGHT {
        Some(
            if command {
                EditOp::LineEnd(motion)
            } else if option {
                EditOp::WordRight(motion)
            } else {
                EditOp::Right(motion)
            },
        )
    } else if code == keys::UP {
        Some(
            if command {
                EditOp::BufferStart(motion)
            } else {
                EditOp::Up(motion)
            },
        )
    } else if code == keys::DOWN {
        Some(
            if command {
                EditOp::BufferEnd(motion)
            } else {
                EditOp::Down(motion)
            },
        )
    } else if code == keys::DELETE {
        Some(
            if command {
                EditOp::DeleteToLineStart
            } else if option {
                EditOp::DeleteWordBackward
            } else {
                EditOp::BackspacePaired
            },
        )
    } else if code == keys::FORWARD_DELETE {
        Some(
            if command {
                EditOp::DeleteToLineEnd
            } else if option {
                EditOp::DeleteWordForward
            } else {
                EditOp::DeleteForward
            },
        )
    } else if code == keys::HOME {
        Some(EditOp::LineStart(motion))
    } else if code == keys::END {
        Some(EditOp::LineEnd(motion))
    } else if code == keys::PAGE_UP {
        Some(EditOp::PageUp(motion))
    } else if code == keys::PAGE_DOWN {
        Some(EditOp::PageDown(motion))
    } else if code == keys::RETURN && !command {
        Some(EditOp::NewlineIndented)
    } else if code == keys::TAB && !command {
        // Tab indents a selection; it only inserts a character when there is
        // nothing to indent.
        Some(
            if event.flags.shift {
                EditOp::Outdent
            } else if selected {
                EditOp::Indent
            } else {
                EditOp::InsertTab
            },
        )
    } else {
        None
    }
}

/// The Emacs-style Control bindings that every macOS text view supports.
pub open spec fn control_binding(event: KeyEvent) -> Option<EditOp> {
    let motion = keys::motion_with(event.flags);
    match event.bare {
        None => None,
        Some(c) => {
            let c = crate::text::ascii_lower(c);
            if c == 'a' {
                Some(EditOp::LineStart(motion))
            } else if c == 'e' {
                Some(EditOp::LineEnd(motion))
            } else if c == 'b' {
                Some(EditOp::Left(motion))
            } else if c == 'f' {
                Some(EditOp::Right(motion))
            } else if c == 'p' {
                Some(EditOp::Up(motion))
            } else if c == 'n' {
                Some(EditOp::Down(motion))
            } else if c == 'd' {
                Some(EditOp::DeleteForward)
            } else if c == 'k' {
                Some(EditOp::DeleteToLineEnd)
            } else if c == 'h' {
                Some(EditOp::Backspace)
            } else {
                None
            }
        },
    }
}

/// What a key does once it has reached the document.
pub open spec fn document_route(event: KeyEvent, selected: bool) -> Route {
    match navigation(event, selected) {
        Some(op) => Route::Document(op),
        None => if event.flags.control && !event.flags.command {
            match control_binding(event) {
                Some(op) => Route::Document(op),
                None => Route::Unhandled,
            }
        } else if event.flags.command {
            match keys::tab_digit(event.bare) {
                Some(digit) => Route::Tab((digit - 1) as usize),
                None => Route::Unhandled,
            }
        } else {
            Route::Text
        },
    }
}

/// The commands that have keys of their own, while no field is open.
pub open spec fn command_route(event: KeyEvent, field: bool) -> Option<Route> {
    let flags = event.flags;
    let plain = !flags.command && !flags.option;
    if field {
        None
    } else if event.code == keys::F12 && plain {
        Some(
            if flags.shift {
                Route::FindReferences
            } else {
                Route::GotoDefinition
            },
        )
    } else if event.code == keys::F2 && plain && !flags.shift {
        Some(Route::StartRename)
    } else if event.code == keys::F && flags.shift && flags.option && !flags.command {
        Some(Route::FormatDocument)
    } else if event.code == keys::F1 && plain {
        Some(Route::ShowHover)
    } else if event.code == keys::SPACE && flags.control {
        Some(Route::RequestCompletion)
    } else {
        None
    }
}

/// Whether a review takes the key: everything but other shortcuts, so that
/// nothing types into the assistant's text.
pub open spec fn review_takes(event: KeyEvent) -> bool {
    ||| ((event.code == keys::RETURN || event.code == keys::KEYPAD_ENTER) && event.flags.command)
    ||| event.code == keys::ESCAPE
    ||| event.code == keys::UP
    ||| event.code == keys::DOWN
    ||| event.code == keys::PAGE_UP
    ||| event.code == keys::PAGE_DOWN
    ||| event.code == keys::HOME
    ||| event.code == keys::END
    ||| !(event.flags.command || event.flags.control)
}

/// The palette keeps everything without Command, and Command-Delete.
pub open spec fn palette_takes(event: KeyEvent) -> bool {
    !event.flags.command || keys::plain_code(event.code) == keys::DELETE
}

/// The find bar keeps everything without Command, its own keys, and the
/// editing shortcuts.
pub open spec fn find_takes(event: KeyEvent, state: State) -> bool {
    let code = keys::plain_code(event.code);
    ||| !event.flags.command
    ||| code == keys::ESCAPE
    ||| code == keys::TAB
    ||| code == keys::RETURN
    ||| !(crate::find::field_command(event) is Ignored)
    ||| ((code == keys::UP || code == keys::DOWN) && (state.fields.find matches Some(bar)
        && bar.project && bar.results@.len() > 0))
}

/// Whether something over the document has the key before Escape means
/// anything to the document.
pub open spec fn overlay_open(state: State) -> bool {
    ||| state.fields.palette is Some
    ||| state.fields.find is Some
    ||| state.fields.goto_line is Some
    ||| state.fields.rename is Some
}

/// Where a key goes.
pub open spec fn route_of(state: State, event: KeyEvent) -> Route {
    let flags = event.flags;
    if event.code == keys::GRAVE && flags.control && !flags.command {
        Route::ToggleTerminal
    } else if state.terminal_keys() {
        Route::Terminal
    } else if state.reviewing() && !state.field_open() && review_takes(event) {
        Route::Review
    } else if flags.command && flags.option && event.code == keys::G {
        Route::OpenGit
    } else if event.code == keys::DELETE && (flags.command || flags.option)
        && state.field_open() {
        Route::FieldDelete(
            if flags.command {
                EditOp::DeleteToLineStart
            } else {
                EditOp::DeleteWordBackward
            },
        )
    } else if state.hints.completion is Some && crate::completion::popup_takes(
        state.hints.completion->0,
        event,
    ) {
        Route::Completion
    } else if command_route(event, state.field_open()) is Some {
        command_route(event, state.field_open())->0
    } else if state.fields.sidebar_edit is Some {
        Route::SidebarEdit
    } else if state.git.open {
        Route::Git
    } else if event.code == keys::ESCAPE && !overlay_open(state) {
        if state.hints.signature is Some {
            Route::CloseSignature
        } else {
            Route::CollapseCursors
        }
    } else if state.fields.rename is Some && !flags.command {
        Route::RenameField
    } else if state.fields.goto_line is Some && !flags.command {
        Route::Goto
    } else if state.fields.palette is Some && palette_takes(event) {
        Route::Palette
    } else if state.fields.find is Some && find_takes(event, state) {
        Route::Find
    } else if state.pane.docs.front().preview_file {
        Route::Preview
    } else if event.code == keys::RETURN && flags.command && http::sendable(state) {
        Route::SendRequest
    } else {
        document_route(event, state.pane.docs.front().has_selection())
    }
}

/// See [`navigation`].
fn navigation_for(event: &KeyEvent, selected: bool) -> (op: Option<EditOp>)
    ensures
        op == navigation(*event, selected),
{
    let code = keys::code_of(event);
    let motion = keys::motion_for(event.flags);
    let command = event.flags.command;
    let option = event.flags.option;
    if code == keys::LEFT {
        Some(
            if command {
                EditOp::LineStart(motion)
            } else if option {
                EditOp::WordLeft(motion)
            } else {
                EditOp::Left(motion)
            },
        )
    } else if code == keys::RIGHT {
        Some(
            if command {
                EditOp::LineEnd(motion)
            } else if option {
                EditOp::WordRight(motion)
            } else {
                EditOp::Right(motion)
            },
        )
    } else if code == keys::UP {
        Some(
            if command {
                EditOp::BufferStart(motion)
            } else {
                EditOp::Up(motion)
            },
        )
    } else if code == keys::DOWN {
        Some(
            if command {
                EditOp::BufferEnd(motion)
            } else {
                EditOp::Down(motion)
            },
        )
    } else if code == keys::DELETE {
        Some(
            if command {
                EditOp::DeleteToLineStart
            } else if option {
                EditOp::DeleteWordBackward
            } else {
                EditOp::BackspacePaired
            },
        )
    } else if code == keys::FORWARD_DELETE {
        Some(
            if command {
                EditOp::DeleteToLineEnd
            } else if option {
                EditOp::DeleteWordForward
            } else {
                EditOp::DeleteForward
            },
        )
    } else if code == keys::HOME {
        Some(EditOp::LineStart(motion))
    } else if code == keys::END {
        Some(EditOp::LineEnd(motion))
    } else if code == keys::PAGE_UP {
        Some(EditOp::PageUp(motion))
    } else if code == keys::PAGE_DOWN {
        Some(EditOp::PageDown(motion))
    } else if code == keys::RETURN && !command {
        Some(EditOp::NewlineIndented)
    } else if code == keys::TAB && !command {
        Some(
            if event.flags.shift {
                EditOp::Outdent
            } else if selected {
                EditOp::Indent
            } else {
                EditOp::InsertTab
            },
        )
    } else {
        None
    }
}

/// See [`control_binding`].
fn control_binding_for(event: &KeyEvent) -> (op: Option<EditOp>)
    ensures
        op == control_binding(*event),
{
    let motion = keys::motion_for(event.flags);
    match event.bare {
        None => None,
        Some(c) => match crate::text::lower(c) {
            'a' => Some(EditOp::LineStart(motion)),
            'e' => Some(EditOp::LineEnd(motion)),
            'b' => Some(EditOp::Left(motion)),
            'f' => Some(EditOp::Right(motion)),
            'p' => Some(EditOp::Up(motion)),
            'n' => Some(EditOp::Down(motion)),
            'd' => Some(EditOp::DeleteForward),
            'k' => Some(EditOp::DeleteToLineEnd),
            'h' => Some(EditOp::Backspace),
            _ => None,
        },
    }
}

/// See [`document_route`].
fn document_route_for(event: &KeyEvent, selected: bool) -> (route: Route)
    ensures
        route == document_route(*event, selected),
{
    match navigation_for(event, selected) {
        Some(op) => Route::Document(op),
        None => if event.flags.control && !event.flags.command {
            match control_binding_for(event) {
                Some(op) => Route::Document(op),
                None => Route::Unhandled,
            }
        } else if event.flags.command {
            match keys::digit_of(event.bare) {
                Some(digit) => Route::Tab(digit - 1),
                None => Route::Unhandled,
            }
        } else {
            Route::Text
        },
    }
}

/// See [`command_route`].
fn command_route_for(event: &KeyEvent, field: bool) -> (route: Option<Route>)
    ensures
        route == command_route(*event, field),
{
    let flags = event.flags;
    let plain = !flags.command && !flags.option;
    if field {
        None
    } else if event.code == keys::F12 && plain {
        Some(
            if flags.shift {
                Route::FindReferences
            } else {
                Route::GotoDefinition
            },
        )
    } else if event.code == keys::F2 && plain && !flags.shift {
        Some(Route::StartRename)
    } else if event.code == keys::F && flags.shift && flags.option && !flags.command {
        Some(Route::FormatDocument)
    } else if event.code == keys::F1 && plain {
        Some(Route::ShowHover)
    } else if event.code == keys::SPACE && flags.control {
        Some(Route::RequestCompletion)
    } else {
        None
    }
}

/// See [`review_takes`].
pub fn takes_review_key(event: &KeyEvent) -> (r: bool)
    ensures
        r == review_takes(*event),
{
    let code = event.code;
    ((code == keys::RETURN || code == keys::KEYPAD_ENTER) && event.flags.command) || code
        == keys::ESCAPE || code == keys::UP || code == keys::DOWN || code == keys::PAGE_UP || code
        == keys::PAGE_DOWN || code == keys::HOME || code == keys::END || !(event.flags.command
        || event.flags.control)
}

/// See [`find_takes`].
fn takes_find_key(event: &KeyEvent, state: &State) -> (r: bool)
    ensures
        r == find_takes(*event, *state),
{
    let code = keys::code_of(event);
    if !event.flags.command || code == keys::ESCAPE || code == keys::TAB || code == keys::RETURN {
        return true;
    }
    if crate::find::is_field_command(event) {
        return true;
    }
    match &state.fields.find {
        Some(bar) => (code == keys::UP || code == keys::DOWN) && bar.project && bar.results.len()
            > 0,
        None => false,
    }
}

/// Where a key goes.
pub fn key_route(state: &State, event: &KeyEvent) -> (route: Route)
    requires
        state.wf(),
    ensures
        route == route_of(*state, *event),
{
    let flags = event.flags;
    if event.code == keys::GRAVE && flags.control && !flags.command {
        return Route::ToggleTerminal;
    }
    let field = field_has_keys(state);
    if state.terminal.open && state.terminal.focus && !field {
        return Route::Terminal;
    }
    if active_review(state) && !field && takes_review_key(event) {
        return Route::Review;
    }
    if flags.command && flags.option && event.code == keys::G {
        return Route::OpenGit;
    }
    if event.code == keys::DELETE && (flags.command || flags.option) && field {
        return Route::FieldDelete(
            if flags.command {
                EditOp::DeleteToLineStart
            } else {
                EditOp::DeleteWordBackward
            },
        );
    }
    if let Some(popup) = &state.hints.completion {
        if crate::completion::takes_popup_key(popup, event) {
            return Route::Completion;
        }
    }
    if let Some(route) = command_route_for(event, field) {
        return route;
    }
    if state.fields.sidebar_edit.is_some() {
        return Route::SidebarEdit;
    }
    if state.git.open {
        return Route::Git;
    }
    let overlay = state.fields.palette.is_some() || state.fields.find.is_some()
        || state.fields.goto_line.is_some() || state.fields.rename.is_some();
    if event.code == keys::ESCAPE && !overlay {
        return if state.hints.signature.is_some() {
            Route::CloseSignature
        } else {
            Route::CollapseCursors
        };
    }
    if state.fields.rename.is_some() && !flags.command {
        return Route::RenameField;
    }
    if state.fields.goto_line.is_some() && !flags.command {
        return Route::Goto;
    }
    if state.fields.palette.is_some() && (!flags.command || keys::code_of(event) == keys::DELETE) {
        return Route::Palette;
    }
    if state.fields.find.is_some() && takes_find_key(event, state) {
        return Route::Find;
    }
    let front = state.pane.docs.active();
    if front.preview_file {
        return Route::Preview;
    }
    if event.code == keys::RETURN && flags.command && http::can_send_from(state) {
        return Route::SendRequest;
    }
    document_route_for(event, front.cursor != front.anchor)
}

/// With a field open nothing typed reaches the document, and neither do
/// Command-Delete and Option-Delete.
pub proof fn a_field_takes_what_is_typed(state: State, event: KeyEvent)
    requires
        state.field_open(),
        !event.flags.command,
    ensures
        !(route_of(state, event) is Document),
        !(route_of(state, event) is Text),
        !(route_of(state, event) is Tab),
{
}

/// In a review nothing is typed into the assistant's text: without Command and
/// Control every key is the review's.
pub proof fn nothing_is_typed_into_a_review(state: State, event: KeyEvent)
    requires
        state.reviewing(),
        !state.field_open(),
        !state.terminal_keys(),
        !event.flags.command,
        !event.flags.control,
    ensures
        route_of(state, event) == Route::Review,
{
}

/// With the keyboard the terminal gets every key but the one that toggles it.
pub proof fn the_terminal_gets_every_other_key(state: State, event: KeyEvent)
    requires
        state.terminal_keys(),
    ensures
        route_of(state, event) == Route::Terminal || route_of(state, event)
            == Route::ToggleTerminal,
{
}

/// The same movement, extending the selection.
pub open spec fn extending(op: EditOp) -> EditOp {
    match op {
        EditOp::LineStart(_) => EditOp::LineStart(keys::Motion::Extend),
        EditOp::LineEnd(_) => EditOp::LineEnd(keys::Motion::Extend),
        EditOp::WordLeft(_) => EditOp::WordLeft(keys::Motion::Extend),
        EditOp::WordRight(_) => EditOp::WordRight(keys::Motion::Extend),
        EditOp::Left(_) => EditOp::Left(keys::Motion::Extend),
        EditOp::Right(_) => EditOp::Right(keys::Motion::Extend),
        EditOp::Up(_) => EditOp::Up(keys::Motion::Extend),
        EditOp::Down(_) => EditOp::Down(keys::Motion::Extend),
        EditOp::BufferStart(_) => EditOp::BufferStart(keys::Motion::Extend),
        EditOp::BufferEnd(_) => EditOp::BufferEnd(keys::Motion::Extend),
        EditOp::PageUp(_) => EditOp::PageUp(keys::Motion::Extend),
        EditOp::PageDown(_) => EditOp::PageDown(keys::Motion::Extend),
        _ => op,
    }
}

/// Shift never changes what a key does to the text, only whether a movement
/// selects. Tab is the exception: with Shift it outdents.
pub proof fn shift_only_extends(event: KeyEvent, selected: bool)
    ensures
        ({
            let shifted = KeyEvent { flags: Modifiers { shift: true, ..event.flags }, ..event };
            let plain = KeyEvent { flags: Modifiers { shift: false, ..event.flags }, ..event };
            &&& keys::plain_code(event.code) != keys::TAB ==> navigation(shifted, selected) == (
            match navigation(plain, selected) {
                Some(op) => Some(extending(op)),
                None => None,
            })
            &&& control_binding(shifted) == (match control_binding(plain) {
                Some(op) => Some(extending(op)),
                None => None,
            })
        }),
{
}

} // verus!
