//! Undo, the clipboard, and text from the input system.

use crate::edit::{self, digits_of};
use crate::focus::{focus_for, focused_buffer};
use crate::keys::EditOp;
use crate::menu::{self, focus_selected};
use crate::state::{self, EditorView, Effect, Focus, Hints, State, Target, Task};
use crate::text::{chars_of, single_line};
use vstd::prelude::*;
use vstd::string::*;

verus! {

impl EditorView {
    /// Undo or redo in whatever text has the keyboard. `changes` is whether it
    /// has something to undo, or to redo.
    pub fn action_undo(&mut self, redo: bool, changes: bool)
        requires
            old(self).state.wf(),
        ensures
            final(self).state.wf(),
            ({
                let target = old(self).state.target();
                let op = if redo {
                    EditOp::Redo
                } else {
                    EditOp::Undo
                };
                if changes {
                    final(self).becomes(
                        *old(self),
                        old(self).state,
                        seq![
                            Effect::Edit(target, op),
                            Effect::Run(Task::AfterFocusedEdit(state::focus_of(target))),
                        ],
                    )
                } else {
                    *final(self) == *old(self)
                }
            }),
    {
        if !changes {
            return;
        }
        let target = focused_buffer(&self.state);
        let focus = focus_for(target);
        let op = if redo {
            EditOp::Redo
        } else {
            EditOp::Undo
        };
        self.effects.push(Effect::Edit(target, op));
        self.effects.push(Effect::Run(Task::AfterFocusedEdit(focus)));
        assert(self.effects@ =~= old(self).effects@ + seq![
            Effect::Edit(target, op),
            Effect::Run(Task::AfterFocusedEdit(focus)),
        ]);
    }

    /// Selects all of whatever text has the keyboard. A selection is not an
    /// edit: in a field there is nothing to search again for.
    pub fn action_select_all(&mut self, now: u64)
        requires
            old(self).state.wf(),
        ensures
            final(self).state.wf(),
            ({
                let target = old(self).state.target();
                let select = Effect::Edit(target, EditOp::SelectAll);
                if old(self).state.terminal_keys() {
                    *final(self) == *old(self)
                } else if target is Document {
                    final(self).becomes(
                        *old(self),
                        old(self).state,
                        seq![select, Effect::Run(Task::AfterFocusedEdit(Focus::Document))],
                    )
                } else {
                    final(self).shows(*old(self), old(self).state, seq![select], now)
                }
            }),
    {
        if self.terminal_has_keys() {
            return;
        }
        let target = focused_buffer(&self.state);
        self.effects.push(Effect::Edit(target, EditOp::SelectAll));
        if target == Target::Document {
            self.effects.push(Effect::Run(Task::AfterFocusedEdit(Focus::Document)));
            assert(self.effects@ =~= old(self).effects@ + seq![
                Effect::Edit(target, EditOp::SelectAll),
                Effect::Run(Task::AfterFocusedEdit(Focus::Document)),
            ]);
        } else {
            let ghost done = seq![Effect::Edit(target, EditOp::SelectAll)];
            assert(self.effects@ =~= old(self).effects@ + done);
            self.show(now);
            assert(self.effects@ =~= old(self).effects@ + (done + old(self).pumping(now)));
        }
    }

    /// Copies what is selected. In the terminal, its own selection; never the
    /// document's. `terminal` is the text selected there.
    pub fn action_copy(&mut self, terminal: Option<String>)
        requires
            old(self).state.wf(),
        ensures
            final(self).state.wf(),
            final(self).becomes(
                *old(self),
                old(self).state,
                if old(self).state.terminal_keys() {
                    match terminal {
                        Some(text) => seq![Effect::CopyText(text)],
                        None => Seq::empty(),
                    }
                } else if menu::selected_in_focus(old(self).state) {
                    seq![Effect::CopyFrom(old(self).state.target())]
                } else {
                    Seq::empty()
                },
            ),
    {
        if self.terminal_has_keys() {
            if let Some(text) = terminal {
                self.ask(Effect::CopyText(text));
            } else {
                assert(self.effects@ =~= old(self).effects@ + Seq::<Effect>::empty());
            }
            return;
        }
        if focus_selected(&self.state) {
            let target = focused_buffer(&self.state);
            self.ask(Effect::CopyFrom(target));
        } else {
            assert(self.effects@ =~= old(self).effects@ + Seq::<Effect>::empty());
        }
    }

    /// Cuts what is selected in whatever text has the keyboard.
    pub fn action_cut(&mut self)
        requires
            old(self).state.wf(),
        ensures
            final(self).state.wf(),
            ({
                let target = old(self).state.target();
                final(self).becomes(
                    *old(self),
                    old(self).state,
                    if menu::selected_in_focus(old(self).state) {
                        seq![
                            Effect::CutFrom(target),
                            Effect::Run(Task::AfterFocusedEdit(state::focus_of(target))),
                        ]
                    } else {
                        Seq::empty()
                    },
                )
            }),
    {
        if focus_selected(&self.state) {
            let target = focused_buffer(&self.state);
            let focus = focus_for(target);
            self.effects.push(Effect::CutFrom(target));
            self.effects.push(Effect::Run(Task::AfterFocusedEdit(focus)));
            assert(self.effects@ =~= old(self).effects@ + seq![
                Effect::CutFrom(target),
                Effect::Run(Task::AfterFocusedEdit(focus)),
            ]);
        } else {
            assert(self.effects@ =~= old(self).effects@ + Seq::<Effect>::empty());
        }
    }
}

/// What of a pasted text goes into the text with the keyboard: all of it into
/// a document, digits into the line-number field, the first line elsewhere.
pub open spec fn pasted(focus: Focus, text: Seq<char>) -> Seq<char> {
    match focus {
        Focus::Document => text,
        _ => edit::committed(focus, text),
    }
}

/// What a paste into `target` asks for.
pub open spec fn paste_work(target: Target, put: String) -> Seq<Effect> {
    if put@.len() == 0 {
        Seq::empty()
    } else {
        seq![
            Effect::Insert(target, put),
            Effect::Run(Task::AfterFocusedEdit(state::focus_of(target))),
        ]
    }
}

impl EditorView {
    /// Pastes `text`, if there is some. `encoded` is what the terminal session
    /// is to be sent for it.
    pub fn action_paste(&mut self, text: Option<String>, encoded: Vec<u8>)
        requires
            old(self).state.wf(),
        ensures
            final(self).state.wf(),
            match text {
                None => *final(self) == *old(self),
                Some(text) => if old(self).state.terminal_keys() {
                    final(self).writes(*old(self), encoded)
                } else {
                    exists|put: String|
                        {
                            &&& put@ == pasted(
                                state::focus_of(old(self).state.target()),
                                text@,
                            )
                            &&& #[trigger] final(self).becomes(
                                *old(self),
                                old(self).state,
                                paste_work(old(self).state.target(), put),
                            )
                        }
                },
            },
    {
        let text = match text {
            Some(text) => text,
            None => {
                return;
            },
        };
        if self.terminal_has_keys() {
            self.terminal_write(encoded);
            return;
        }
        let target = focused_buffer(&self.state);
        let focus = focus_for(target);
        let put = match focus {
            Focus::Document => text,
            Focus::Goto => digits_of(text.as_str()),
            Focus::FindQuery | Focus::Field => single_line(text.as_str()),
        };
        let ghost named = put;
        if chars_of(put.as_str()).len() > 0 {
            self.effects.push(Effect::Insert(target, put));
            self.effects.push(Effect::Run(Task::AfterFocusedEdit(focus)));
        }
        assert(self.effects@ =~= old(self).effects@ + paste_work(target, named));
        assert(self.becomes(*old(self), old(self).state, paste_work(target, named)));
    }
}

impl State {
    /// The state with another text being composed.
    pub open spec fn composing(self, marked: Option<String>) -> State {
        State { hints: Hints { marked, ..self.hints }, ..self }
    }
}

impl EditorView {
    /// This is `before` with `text` committed to what has the keyboard, and
    /// on its way to the screen.
    pub open spec fn takes_text_input(
        &self,
        before: EditorView,
        text: String,
        replaced: Option<(usize, usize)>,
        now: u64,
    ) -> bool {
        exists|quiet: EditorView, put: String, committed: EditorView|
            {
                &&& #[trigger] quiet.becomes(before, before.state.composing(None), Seq::empty())
                &&& put@ == edit::committed(state::focus_of(before.state.target()), text@)
                &&& #[trigger] committed.commits(quiet, put, text, replaced)
                &&& self.shows_input(committed, now)
            }
    }

    /// This is `before` with a change that may not have come from a key on its
    /// way to the screen.
    pub open spec fn shows_input(&self, before: EditorView, now: u64) -> bool {
        if before.ivars.in_key_down {
            *self == before
        } else {
            self.shows(
                before,
                before.state,
                seq![Effect::Run(Task::Reparse), Effect::SyncTitle],
                now,
            )
        }
    }

    /// The input system has text to put in.
    pub fn insert_text(&mut self, text: String, replaced: Option<(usize, usize)>, now: u64)
        requires
            old(self).state.wf(),
        ensures
            final(self).state.wf(),
            final(self).takes_text_input(*old(self), text, replaced, now),
    {
        self.state.hints.marked = None;
        let ghost quiet = *self;
        let ghost whole = text;
        assert(quiet.effects@ =~= old(self).effects@ + Seq::<Effect>::empty());
        assert(quiet.becomes(*old(self), old(self).state.composing(None), Seq::empty()));
        assert(quiet.state.target() == old(self).state.target());
        let focus = self.commit_text(text, replaced);
        let ghost committed = *self;
        proof {
            let put = choose|put: String|
                {
                    &&& put@ == edit::committed(focus, whole@)
                    &&& #[trigger] committed.commits(quiet, put, whole, replaced)
                };
            assert(committed.commits(quiet, put, whole, replaced));
        }
        self.show_input_change(now);
        assert(self.shows_input(committed, now));
    }

    /// The input system composes: `text` is not committed yet.
    pub fn set_marked_text(&mut self, text: String, now: u64)
        requires
            old(self).state.wf(),
        ensures
            final(self).state.wf(),
            exists|marked: EditorView|
                {
                    &&& #[trigger] marked.marks(
                        *old(self),
                        old(self).state.composing(composed(text)),
                        Seq::empty(),
                    )
                    &&& final(self).shows_input(marked, now)
                },
    {
        let ghost whole = text;
        if chars_of(text.as_str()).len() > 0 {
            self.state.hints.marked = Some(text);
        } else {
            self.state.hints.marked = None;
        }
        self.request_redraw();
        let ghost marked = *self;
        assert(marked.effects@ =~= old(self).effects@ + Seq::<Effect>::empty());
        assert(marked.marks(
            *old(self),
            old(self).state.composing(composed(whole)),
            Seq::empty(),
        ));
        self.show_input_change(now);
    }

    /// Commit whatever is being composed, as it stands.
    pub fn unmark_text(&mut self, now: u64)
        requires
            old(self).state.wf(),
        ensures
            final(self).state.wf(),
            match old(self).state.hints.marked {
                None => *final(self) == *old(self),
                Some(text) => final(self).takes_text_input(*old(self), text, None, now),
            },
    {
        let marked = match &self.state.hints.marked {
            Some(text) => text.clone(),
            None => {
                return;
            },
        };
        self.insert_text(marked, None, now);
    }
}

/// What is being composed, when it is something.
pub open spec fn composed(text: String) -> Option<String> {
    if text@.len() > 0 {
        Some(text)
    } else {
        None
    }
}

/// How many units of the input system a character takes: those beyond the
/// first plane take two.
pub open spec fn input_units(c: char) -> nat {
    if c as u32 >= 0x10000 {
        2
    } else {
        1
    }
}

/// How many units a text takes.
pub open spec fn input_length(text: Seq<char>) -> nat
    decreases text.len(),
{
    if text.len() == 0 {
        0
    } else {
        input_length(text.drop_last()) + input_units(text.last())
    }
}

/// A text takes at least a unit for each of its characters, and no more than
/// two.
pub proof fn input_length_bounds(text: Seq<char>)
    ensures
        text.len() <= input_length(text) <= 2 * text.len(),
    decreases text.len(),
{
    if text.len() > 0 {
        input_length_bounds(text.drop_last());
    }
}

/// Longer texts take no fewer units.
proof fn input_length_grows(text: Seq<char>, a: int, b: int)
    requires
        0 <= a <= b <= text.len(),
    ensures
        input_length(text.take(a)) <= input_length(text.take(b)),
    decreases b - a,
{
    if a < b {
        input_length_grows(text, a, b - 1);
        assert(text.take(b).drop_last() =~= text.take(b - 1));
    }
}

impl EditorView {
    /// Where the composed text is: from `location`, where the caret is, for as
    /// long as it is.
    pub fn marked_range(&self, location: usize) -> (range: Option<(usize, usize)>)
        requires
            self.state.hints.marked matches Some(text) ==> input_length(text@) <= usize::MAX,
        ensures
            match self.state.hints.marked {
                None => range is None,
                Some(text) => range == Some((location, input_length(text@) as usize)),
            },
    {
        let text = match &self.state.hints.marked {
            Some(text) => text,
            None => {
                return None;
            },
        };
        let chars = chars_of(text.as_str());
        let mut length: usize = 0;
        let mut i: usize = 0;
        assert(chars@.take(0) =~= Seq::empty());
        while i < chars.len()
            invariant
                i <= chars@.len(),
                length == input_length(chars@.take(i as int)),
                input_length(chars@) <= usize::MAX,
            decreases chars@.len() - i,
        {
            assert(chars@.take(i + 1).drop_last() =~= chars@.take(i as int));
            proof {
                input_length_grows(chars@, i + 1, chars@.len() as int);
                assert(chars@.take(chars@.len() as int) =~= chars@);
            }
            if chars[i] as u32 >= 0x10000 {
                length += 2;
            } else {
                length += 1;
            }
            i += 1;
        }
        assert(chars@.take(chars@.len() as int) =~= chars@);
        Some((location, length))
    }

    /// Whether an input method is composing.
    pub fn has_marked_text(&self) -> (r: bool)
        ensures
            r == (self.state.hints.marked is Some),
    {
        self.state.hints.marked.is_some()
    }
}

} // verus!
