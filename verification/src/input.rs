//! Keys on their way: each is handed to whoever has it, and what follows a
//! key that changed something.

use crate::completion::{self, popup_key_of, PopupKey};
use crate::focus::{focus_for, focused_buffer};
use crate::keyboard::{self, key_route, Route};
use crate::keys::{EditOp, KeyEvent};
use crate::palette::Pick;
use crate::state::{self, EditorView, Effect, Hints, Ivars, Pacing, Side, State, Target, Task};
use crate::tabs::present;
use vstd::prelude::*;

verus! {

/// What else is known of a key: how many lines a screenful is, what it stands
/// for in a terminal, what the palette offers and how much of it is in sight,
/// and whether there is more than one caret.
pub struct KeyContext {
    pub page: i64,
    pub encoded: Option<Vec<u8>>,
    pub picks: Vec<Pick>,
    pub visible: usize,
    pub several_carets: bool,
}

/// Whether a key on route `route` goes to a field or a list.
pub open spec fn is_handed(route: Route) -> bool {
    match route {
        Route::Review | Route::Completion | Route::SidebarEdit | Route::Git | Route::RenameField
        | Route::Goto | Route::Palette | Route::Find => true,
        _ => false,
    }
}

/// Whether a key on route `route` has passed the completion list by.
pub open spec fn passes_list(route: Route) -> bool {
    match route {
        Route::ToggleTerminal | Route::Terminal | Route::Review | Route::OpenGit
        | Route::FieldDelete(_) | Route::Completion => false,
        _ => true,
    }
}

/// Whether a key closes the list on its way to somebody else.
pub open spec fn closes_list(s: State, event: KeyEvent, route: Route) -> bool {
    &&& passes_list(route)
    &&& s.hints.completion matches Some(popup)
    &&& completion::popup_key(popup, event) is CloseAndPass
}

/// The state that a key finds. Typing goes to the document, so the tree no
/// longer has the keys.
pub open spec fn ready_for_key(s: State, event: KeyEvent, route: Route) -> State {
    let for_terminal = route is ToggleTerminal || route is Terminal;
    State {
        side: Side {
            keys: s.side.keys && (for_terminal || event.flags.command),
            ..s.side
        },
        hints: Hints {
            completion: if closes_list(s, event, route) {
                None
            } else {
                s.hints.completion
            },
            ..s.hints
        },
        ..s
    }
}

/// The command that a key leads to, when it is one of the view's own.
pub open spec fn key_command(route: Route) -> Option<Task> {
    match route {
        Route::FindReferences => Some(Task::FindReferences),
        Route::GotoDefinition => Some(Task::GotoDefinition),
        Route::StartRename => Some(Task::StartRename),
        Route::FormatDocument => Some(Task::FormatDocument(false)),
        Route::ShowHover => Some(Task::ShowHover),
        Route::RequestCompletion => Some(Task::RequestCompletion(true)),
        Route::SendRequest => Some(Task::SendRequest),
        _ => None,
    }
}

/// See [`key_command`].
fn command_for(route: Route) -> (task: Option<Task>)
    ensures
        task == key_command(route),
{
    match route {
        Route::FindReferences => Some(Task::FindReferences),
        Route::GotoDefinition => Some(Task::GotoDefinition),
        Route::StartRename => Some(Task::StartRename),
        Route::FormatDocument => Some(Task::FormatDocument(false)),
        Route::ShowHover => Some(Task::ShowHover),
        Route::RequestCompletion => Some(Task::RequestCompletion(true)),
        Route::SendRequest => Some(Task::SendRequest),
        _ => None,
    }
}

impl EditorView {
    /// This is `ready` with tab `n` in front, if there is one.
    pub open spec fn jumps_to_tab(&self, ready: EditorView, n: usize, handled: bool) -> bool {
        &&& handled == (n < ready.state.pane.docs.list@.len())
        &&& if handled {
            self.becomes(
                ready,
                ready.state.switched(n).presented(),
                seq![Effect::SyncTitle, Effect::Run(Task::Reparse)],
            )
        } else {
            *self == ready
        }
    }

    /// This is `ready` after the field or list that has the key got it.
    pub open spec fn hands_key(
        &self,
        ready: EditorView,
        event: KeyEvent,
        context: KeyContext,
        route: Route,
        handled: bool,
        now: u64,
    ) -> bool {
        match route {
            Route::Review => self.handles_review_key(ready, event, context.page, handled, now),
            Route::Completion => self.handles_completion_key(ready, event, handled, now),
            Route::SidebarEdit => self.handles_sidebar_edit_key(ready, event, handled, now),
            Route::Git => self.handles_git_key(ready, event, handled, now),
            Route::RenameField => self.handles_rename_key(ready, event, handled, now),
            Route::Goto => self.handles_goto_key(ready, event, handled, now),
            Route::Palette => self.handles_palette_key(
                ready,
                event,
                context.picks@,
                context.visible as int,
                handled,
                now,
            ),
            Route::Find => self.handles_find_key(ready, event, handled, now),
            _ => true,
        }
    }

    /// This is `ready` after the document, or a command, got the key.
    pub open spec fn obeys_key(
        &self,
        ready: EditorView,
        context: KeyContext,
        route: Route,
        handled: bool,
        now: u64,
    ) -> bool {
        match route {
            Route::OpenGit => {
                let scm = !ready.state.git.open;
                &&& handled
                &&& self.shows(
                    ready,
                    ready.state.with_sidebar_view(scm),
                    crate::git::sidebar_view_work(ready.state, scm),
                    now,
                )
            },
            Route::FieldDelete(op) => {
                let target = ready.state.target();
                &&& handled
                &&& self.becomes(
                    ready,
                    ready.state,
                    seq![
                        Effect::Edit(target, op),
                        Effect::Run(Task::AfterFocusedEdit(state::focus_of(target))),
                        Effect::Run(Task::Pump),
                    ],
                )
            },
            Route::CloseSignature => {
                &&& handled
                &&& self.marks(ready, ready.state.with_signature(None), Seq::empty())
            },
            Route::CollapseCursors => {
                &&& handled == context.several_carets
                &&& self.becomes(
                    ready,
                    ready.state,
                    seq![Effect::Edit(Target::Document, EditOp::CollapseCursors)],
                )
            },
            Route::Document(op) => {
                &&& handled
                &&& self.becomes(
                    ready,
                    ready.state,
                    seq![Effect::Edit(Target::Document, op), Effect::ScrollToCursor],
                )
            },
            Route::Tab(n) => self.jumps_to_tab(ready, n, handled),
            Route::Text => {
                &&& handled
                &&& self.becomes(ready, ready.state, seq![Effect::Interpret])
            },
            Route::Preview | Route::Unhandled => !handled && *self == ready,
            _ => match key_command(route) {
                Some(task) => {
                    &&& handled
                    &&& self.becomes(ready, ready.state, seq![Effect::Run(task)])
                },
                None => true,
            },
        }
    }

    /// This is `before` after a key.
    pub open spec fn takes_key(
        &self,
        before: EditorView,
        event: KeyEvent,
        context: KeyContext,
        handled: bool,
        now: u64,
    ) -> bool {
        let route = keyboard::route_of(before.state, event);
        let ready = EditorView {
            state: ready_for_key(before.state, event, route),
            ..before
        };
        match route {
            Route::ToggleTerminal => handled && self.toggles_terminal(before, now),
            Route::Terminal => handled && self.handles_terminal_key(
                before,
                event,
                context.encoded,
            ),
            _ => {
                &&& self.hands_key(ready, event, context, route, handled, now)
                &&& self.obeys_key(ready, context, route, handled, now)
            },
        }
    }

    /// Gets ready for a key that is not the terminal's.
    fn ready(&mut self, event: &KeyEvent, route: Route)
        requires
            old(self).state.wf(),
            !(route is ToggleTerminal),
            !(route is Terminal),
        ensures
            final(self).state.wf(),
            final(self).state == ready_for_key(old(self).state, *event, route),
            final(self).ivars == old(self).ivars,
            final(self).effects == old(self).effects,
    {
        if !event.flags.command {
            self.state.side.keys = false;
        }
        let passes = match route {
            Route::ToggleTerminal | Route::Terminal | Route::Review | Route::OpenGit
            | Route::FieldDelete(_) | Route::Completion => false,
            _ => true,
        };
        let closes = match &self.state.hints.completion {
            Some(popup) => match popup_key_of(popup, event) {
                PopupKey::CloseAndPass => true,
                _ => false,
            },
            None => false,
        };
        if passes && closes {
            self.state.hints.completion = None;
        }
    }

    /// Hands the key to the field or list that has it.
    fn hand_key(&mut self, event: &KeyEvent, context: KeyContext, route: Route, now: u64) -> (
    handled: bool)
        requires
            old(self).state.wf(),
            context.page > 0,
            is_handed(route),
        ensures
            final(self).state.wf(),
            final(self).hands_key(*old(self), *event, context, route, handled, now),
    {
        match route {
            Route::Review => self.handle_review_key(event, context.page, now),
            Route::Completion => self.handle_completion_key(event, now),
            Route::SidebarEdit => self.handle_sidebar_edit_key(event, now),
            Route::Git => self.handle_git_key(event, now),
            Route::RenameField => self.handle_rename_key(event, now),
            Route::Goto => self.handle_goto_key(event, now),
            Route::Palette => self.handle_palette_key(event, context.picks, context.visible, now),
            _ => self.handle_find_key(event, now),
        }
    }

    /// Brings tab `n` to the front. Returns whether there is one.
    fn jump_to_tab(&mut self, n: usize) -> (handled: bool)
        requires
            old(self).state.wf(),
        ensures
            final(self).state.wf(),
            final(self).jumps_to_tab(*old(self), n, handled),
    {
        if n >= self.state.pane.docs.len() {
            return false;
        }
        let switched = self.state.pane.docs.switch(n);
        present(&mut self.state);
        self.effects.push(Effect::SyncTitle);
        self.effects.push(Effect::Run(Task::Reparse));
        assert(self.effects@ =~= old(self).effects@ + seq![
            Effect::SyncTitle,
            Effect::Run(Task::Reparse),
        ]);
        true
    }

    /// Does what the key says, to the document or by a command.
    fn obey_key(&mut self, context: &KeyContext, route: Route, now: u64) -> (handled: bool)
        requires
            old(self).state.wf(),
        ensures
            final(self).state.wf(),
            final(self).obeys_key(*old(self), *context, route, handled, now),
    {
        match route {
            Route::OpenGit => {
                self.open_git(now);
                true
            },
            Route::FieldDelete(op) => {
                let target = focused_buffer(&self.state);
                let focus = focus_for(target);
                self.effects.push(Effect::Edit(target, op));
                self.effects.push(Effect::Run(Task::AfterFocusedEdit(focus)));
                self.effects.push(Effect::Run(Task::Pump));
                assert(self.effects@ =~= old(self).effects@ + seq![
                    Effect::Edit(target, op),
                    Effect::Run(Task::AfterFocusedEdit(focus)),
                    Effect::Run(Task::Pump),
                ]);
                true
            },
            Route::CloseSignature => {
                self.state.hints.signature = None;
                self.request_redraw();
                assert(self.effects@ =~= old(self).effects@ + Seq::<Effect>::empty());
                true
            },
            Route::CollapseCursors => {
                self.ask(Effect::Edit(Target::Document, EditOp::CollapseCursors));
                context.several_carets
            },
            Route::Document(op) => {
                self.effects.push(Effect::Edit(Target::Document, op));
                self.effects.push(Effect::ScrollToCursor);
                assert(self.effects@ =~= old(self).effects@ + seq![
                    Effect::Edit(Target::Document, op),
                    Effect::ScrollToCursor,
                ]);
                true
            },
            Route::Tab(n) => self.jump_to_tab(n),
            Route::Text => {
                self.ask(Effect::Interpret);
                true
            },
            Route::Preview | Route::Unhandled => false,
            _ => match command_for(route) {
                Some(task) => {
                    self.ask(Effect::Run(task));
                    true
                },
                None => false,
            },
        }
    }

    /// Applies a key event. Returns whether anything changed.
    pub fn handle_key(&mut self, event: &KeyEvent, context: KeyContext, now: u64) -> (handled: bool)
        requires
            old(self).state.wf(),
            context.page > 0,
        ensures
            final(self).state.wf(),
            final(self).takes_key(*old(self), *event, context, handled, now),
    {
        let route = key_route(&self.state, event);
        match route {
            Route::ToggleTerminal => {
                self.toggle_terminal(now);
                return true;
            },
            Route::Terminal => {
                return self.terminal_key(event, context.encoded);
            },
            _ => {},
        }
        self.ready(event, route);
        match route {
            Route::Review | Route::Completion | Route::SidebarEdit | Route::Git
            | Route::RenameField | Route::Goto | Route::Palette | Route::Find => {
                self.hand_key(event, context, route, now)
            },
            _ => self.obey_key(&context, route, now),
        }
    }
}

impl EditorView {
    /// This is `before` with a key being handled.
    pub open spec fn begins_key(&self, before: EditorView) -> bool {
        &&& self.state == before.state
        &&& self.effects == before.effects
        &&& self.ivars == (Ivars { handling_key: true, ..before.ivars })
    }

    /// This is `before` with no key being handled.
    pub open spec fn ends_key(&self, before: EditorView) -> bool {
        &&& self.state == before.state
        &&& self.effects == before.effects
        &&& self.ivars == (Ivars { handling_key: false, ..before.ivars })
    }

    /// A key goes down. Returns whether it changed anything, if it was heard:
    /// a scripted run hears no key that was really pressed.
    ///
    /// Mid-composition every key belongs to the input method: arrows move
    /// through its candidates, Return commits, Escape cancels.
    pub fn key_down(&mut self, event: &KeyEvent, context: KeyContext, pressed: bool, now: u64) -> (
        changed: Option<bool>)
        requires
            old(self).state.wf(),
            context.page > 0,
        ensures
            final(self).state.wf(),
            if old(self).ivars.testing && pressed {
                changed is None && *final(self) == *old(self)
            } else {
                exists|begun: EditorView|
                    {
                        &&& #[trigger] begun.begins_key(*old(self))
                        &&& if old(self).state.hints.marked is Some {
                            &&& changed == Some(true)
                            &&& final(self).becomes(begun, begun.state, seq![Effect::Interpret])
                        } else {
                            &&& changed matches Some(handled)
                            &&& final(self).takes_key(begun, *event, context, handled, now)
                        }
                    }
            },
    {
        if self.ivars.testing && pressed {
            return None;
        }
        self.ivars.handling_key = true;
        let ghost begun = *self;
        assert(begun.begins_key(*old(self)));
        if self.state.hints.marked.is_some() {
            self.ask(Effect::Interpret);
            return Some(true);
        }
        Some(self.handle_key(event, context, now))
    }

    /// What follows a key once it has been handled. `edited` is whether the
    /// active document has edits nobody has heard of, and `started` when the
    /// key went down.
    pub fn key_handled(&mut self, changed: bool, edited: bool, started: u64, now: u64)
        requires
            old(self).state.wf(),
        ensures
            final(self).state.wf(),
            exists|ended: EditorView|
                {
                    &&& #[trigger] ended.ends_key(*old(self))
                    &&& if changed {
                        final(self).follows_change(ended, edited, started, now)
                    } else {
                        *final(self) == ended
                    }
                },
    {
        self.ivars.handling_key = false;
        let ghost ended = *self;
        assert(ended.ends_key(*old(self)));
        if !changed {
            return;
        }
        self.follow_caret();
        let ghost seen = *self;
        assert(seen.effects@ =~= ended.effects@ + Seq::<Effect>::empty());
        assert(seen.becomes(ended, ended.state.following_caret(), Seq::empty()));
        self.lsp_after_key(edited, now);
        let ghost told = *self;
        assert(told.follows_key(seen, edited, now));
        self.reparse();
        let ghost parsed = *self;
        assert(parsed.reparses(told));
        self.note_input(started);
        self.pump(now);
        assert(final_frame(*self, parsed, started, now));
    }

    /// This is `ended` after a key that changed something: the rendering, the
    /// servers, the highlighting and the screen follow.
    pub open spec fn follows_change(
        &self,
        ended: EditorView,
        edited: bool,
        started: u64,
        now: u64,
    ) -> bool {
        exists|seen: EditorView, told: EditorView, parsed: EditorView|
            {
                &&& #[trigger] seen.becomes(ended, ended.state.following_caret(), Seq::empty())
                &&& #[trigger] told.follows_key(seen, edited, now)
                &&& #[trigger] parsed.reparses(told)
                &&& final_frame(*self, parsed, started, now)
            }
    }
}

/// The state with an input that was made at `at` waiting for its frame.
pub open spec fn awaiting_frame(s: State, at: u64) -> State {
    State {
        frame: Pacing {
            caret_since: at,
            pending_input: match s.frame.pending_input {
                Some(first) => Some(first),
                None => Some(at),
            },
            ..s.frame
        },
        ..s
    }
}

/// Whether `after` is `before` with an input made at `at` noted and its frame
/// under way.
pub open spec fn final_frame(after: EditorView, before: EditorView, at: u64, now: u64) -> bool {
    let s = awaiting_frame(before.state, at);
    &&& after.state == (if before.ivars.handling_key {
        s.restless()
    } else {
        s
    })
    &&& after.ivars == (Ivars { needs_redraw: true, ..before.ivars })
    &&& after.effects@ == before.effects@ + before.pumping(now)
}

} // verus!
