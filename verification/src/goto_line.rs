//! Go to line: a field of digits.

use crate::buffer;
use crate::buffer::Field;
use crate::keys::{self, EditOp, KeyEvent};
use crate::state::{EditorView, Effect, Fields, State, Target};
use crate::text::{self, parse_number, trim};
use vstd::prelude::*;

verus! {

impl State {
    /// The state with another line-number field.
    pub open spec fn with_goto(self, goto_line: Option<Field>) -> State {
        State { fields: Fields { goto_line, ..self.fields }, ..self }
    }

    /// The line the field names, counted from zero. People count from one.
    pub open spec fn wanted_line(&self) -> Option<usize> {
        match self.fields.goto_line {
            Some(field) => match text::number_in(text::trimmed(field.text@)) {
                Some(n) => Some(
                    if n > 0 {
                        (n - 1) as usize
                    } else {
                        0
                    },
                ),
                None => None,
            },
            None => None,
        }
    }
}

impl EditorView {
    /// Opens the go-to-line field.
    pub fn open_goto(&mut self, now: u64)
        ensures
            final(self).state.fields.goto_line matches Some(field) && field.text@.len() == 0
                && field.cursor == 0 && field.anchor == 0,
            final(self).shows(
                *old(self),
                old(self).state.with_goto(final(self).state.fields.goto_line),
                Seq::empty(),
                now,
            ),
            old(self).state.wf() ==> final(self).state.wf(),
    {
        self.state.fields.goto_line = Some(Field::new());
        self.show(now);
    }

    /// This is `before` after a key in the go-to-line field.
    pub open spec fn handles_goto_key(
        &self,
        before: EditorView,
        event: KeyEvent,
        handled: bool,
        now: u64,
    ) -> bool {
        let code = keys::plain_code(event.code);
        if event.flags.command {
            !handled && *self == before
        } else {
            &&& handled
            &&& if code == keys::ESCAPE {
                self.shows(before, before.state.with_goto(None), Seq::empty(), now)
            } else if code == keys::RETURN {
                &&& match before.state.wanted_line() {
                    Some(line) => ({
                        let front = before.state.pane.docs.front();
                        let at = buffer::line_offset(front.text@, line as nat) as usize;
                        self.state.pane.docs.fronts(
                            before.state.pane.docs,
                            front.selecting(at, at),
                        )
                    }),
                    None => self.state.pane.docs == before.state.pane.docs,
                }
                &&& self.shows(
                    before,
                    before.state.with_goto(None).at_match(self.state.pane.docs),
                    seq![Effect::ScrollToCursor],
                    now,
                )
            } else if code == keys::DELETE {
                self.shows(
                    before,
                    before.state,
                    seq![Effect::Edit(Target::Goto, EditOp::Backspace)],
                    now,
                )
            } else {
                self.becomes(before, before.state, seq![Effect::Interpret])
            }
        }
    }

    /// Keys while the go-to-line field is open. Text goes through the input
    /// system like everywhere else; only the digits of it are kept.
    pub fn handle_goto_key(&mut self, event: &KeyEvent, now: u64) -> (handled: bool)
        requires
            old(self).state.wf(),
        ensures
            final(self).state.wf(),
            final(self).handles_goto_key(*old(self), *event, handled, now),
    {
        if event.flags.command {
            return false;
        }
        let code = keys::code_of(event);
        if code == keys::ESCAPE {
            self.state.fields.goto_line = None;
            self.show(now);
        } else if code == keys::RETURN {
            self.leave_goto(now);
        } else if code == keys::DELETE {
            self.effects.push(Effect::Edit(Target::Goto, EditOp::Backspace));
            assert(self.effects@ =~= old(self).effects@ + seq![
                Effect::Edit(Target::Goto, EditOp::Backspace),
            ]);
            self.show(now);
            assert(self.effects@ =~= old(self).effects@ + (seq![
                Effect::Edit(Target::Goto, EditOp::Backspace),
            ] + old(self).pumping(now)));
        } else {
            self.ask(Effect::Interpret);
        }
        true
    }

    /// Return: closes the field and goes to its line, if it names one.
    fn leave_goto(&mut self, now: u64)
        requires
            old(self).state.wf(),
        ensures
            final(self).state.wf(),
            match old(self).state.wanted_line() {
                Some(line) => ({
                    let front = old(self).state.pane.docs.front();
                    let at = buffer::line_offset(front.text@, line as nat) as usize;
                    final(self).state.pane.docs.fronts(
                        old(self).state.pane.docs,
                        front.selecting(at, at),
                    )
                }),
                None => final(self).state.pane.docs == old(self).state.pane.docs,
            },
            final(self).shows(
                *old(self),
                old(self).state.with_goto(None).at_match(final(self).state.pane.docs),
                seq![Effect::ScrollToCursor],
                now,
            ),
    {
        let wanted: Option<usize> = match &self.state.fields.goto_line {
            Some(field) => {
                let digits = trim(field.text.as_str());
                parse_number(digits.as_str())
            },
            None => None,
        };
        self.state.fields.goto_line = None;
        if let Some(line) = wanted {
            let line: usize = if line > 0 {
                line - 1
            } else {
                0
            };
            let at = buffer::offset_of_line(&self.state.pane.docs.active().text, line);
            self.state.pane.docs.select_in_front(at, at);
        }
        self.effects.push(Effect::ScrollToCursor);
        assert(self.effects@ =~= old(self).effects@ + seq![Effect::ScrollToCursor]);
        self.show(now);
        assert(self.effects@ =~= old(self).effects@ + (seq![Effect::ScrollToCursor] + old(
            self,
        ).pumping(now)));
    }
}

} // verus!
