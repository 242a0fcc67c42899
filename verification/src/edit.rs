//! What follows an edit: of the document, and of the fields around it.

use crate::buffer::{self, slice_of, Buffer};
use crate::completion::Candidate;
use crate::focus::{focus_for, focused_buffer};
use crate::panes::PaneStore;
use crate::state::{
    self, EditorView, Effect, Focus, Hints, LinePlace, PaletteState, State, Target, Task,
};
use crate::table::Table;
use crate::tabs::{self, default_preview};
use crate::text::{self, chars_of, read, single_line, space, typed_text};
use vstd::prelude::*;
use vstd::string::*;

verus! {

/// What is typed of the word being completed: the text from the list's anchor
/// to the caret.
pub open spec fn prefix_of(s: State) -> Option<Seq<char>> {
    let front = s.pane.docs.front();
    match s.hints.completion {
        Some(popup) => if popup.buffer == front.id && front.cursor >= popup.anchor {
            Some(text::readable(front.text@.subrange(popup.anchor as int, front.cursor as int)))
        } else {
            None
        },
        None => None,
    }
}

/// Whether there is white space in `word`.
pub open spec fn has_space(word: Seq<char>) -> bool {
    exists|i: int| 0 <= i < word.len() && text::is_space(#[trigger] word[i])
}

/// See [`has_space`].
pub fn any_space(word: &str) -> (r: bool)
    ensures
        r == has_space(word@),
{
    let chars = chars_of(word);
    let mut i: usize = 0;
    while i < chars.len()
        invariant
            chars@ == word@,
            i <= chars@.len(),
            forall|j: int| 0 <= j < i ==> !text::is_space(#[trigger] chars@[j]),
        decreases chars@.len() - i,
    {
        if space(chars[i]) {
            assert(text::is_space(word@[i as int]));
            return true;
        }
        i += 1;
    }
    false
}

/// Whether the list stays after an edit: it follows the prefix as it is typed
/// and goes away when the caret leaves the word it was opened for.
pub open spec fn list_stays(s: State) -> bool {
    prefix_of(s) matches Some(prefix) && !has_space(prefix)
}

/// Whether the list stays after a key: a slash ends it too.
pub open spec fn list_stays_for_key(s: State) -> bool {
    prefix_of(s) matches Some(prefix) && !has_space(prefix) && !prefix.contains('/')
}

impl State {
    /// The state with the list kept if `stays`.
    pub open spec fn list_if(self, stays: bool) -> State {
        if stays {
            self
        } else {
            self.without_popup()
        }
    }

    /// The state with the caret's line remembered, if the document is shown
    /// rendered: the rendering follows it.
    pub open spec fn following_caret(self) -> State {
        let front = self.pane.docs.front();
        if self.pane.preview is Some && tabs::preview_of(front) is Some {
            State {
                pane: PaneStore {
                    live_line: Some(
                        LinePlace {
                            buffer: front.id,
                            line: buffer::line_at(front.text@, front.cursor as int) as usize,
                        },
                    ),
                    ..self.pane
                },
                ..self
            }
        } else {
            self
        }
    }
}

/// Whether the active document, changed, is stamped in `after`.
pub open spec fn stamps_front(after: Table<u64>, before: Table<u64>, front: Buffer, now: u64) -> bool {
    if front.path is Some {
        after@ == before@.insert(front.id, now)
    } else {
        after == before
    }
}

impl EditorView {
    /// What is typed of the word being completed.
    pub fn completion_prefix(&self) -> (prefix: Option<String>)
        requires
            self.state.wf(),
        ensures
            match (prefix, prefix_of(self.state)) {
                (Some(prefix), Some(text)) => prefix@ == text,
                (None, None) => true,
                _ => false,
            },
    {
        let front = self.state.pane.docs.active();
        match &self.state.hints.completion {
            Some(popup) => if popup.buffer == front.id && front.cursor >= popup.anchor {
                Some(read(&slice_of(&front.text, popup.anchor, front.cursor)))
            } else {
                None
            },
            None => None,
        }
    }

    /// What an edit of the document asks for before the frame.
    pub open spec fn edit_work(&self) -> Seq<Effect> {
        seq![Effect::Run(Task::Reparse)] + (if list_stays(self.state) {
            seq![Effect::Rank]
        } else {
            Seq::empty()
        }) + seq![Effect::ScrollToCursor, Effect::ResumeDisplayLink, Effect::SyncTitle]
    }

    /// This is `before` after an edit of the document.
    pub open spec fn follows_edit(&self, before: EditorView, now: u64) -> bool {
        let servers = self.state.servers.dirty;
        let gutter = self.state.gutter.dirty;
        let front = before.state.pane.docs.front();
        &&& stamps_front(servers, before.state.servers.dirty, front, now)
        &&& stamps_front(gutter, before.state.gutter.dirty, front, now)
        &&& self.shows(
            before,
            before.state.with_stamps(servers, gutter).list_if(
                list_stays(before.state),
            ).following_caret(),
            before.edit_work(),
            now,
        )
    }

    /// Stamps the active document for its server and the gutter.
    fn stamp_front(&mut self, now: u64)
        requires
            old(self).state.wf(),
        ensures
            final(self).state.wf(),
            final(self).state == old(self).state.with_stamps(
                final(self).state.servers.dirty,
                final(self).state.gutter.dirty,
            ),
            final(self).ivars == old(self).ivars,
            final(self).effects == old(self).effects,
            stamps_front(
                final(self).state.servers.dirty,
                old(self).state.servers.dirty,
                old(self).state.pane.docs.front(),
                now,
            ),
            stamps_front(
                final(self).state.gutter.dirty,
                old(self).state.gutter.dirty,
                old(self).state.pane.docs.front(),
                now,
            ),
    {
        let id = self.state.pane.docs.active().id;
        if self.state.pane.docs.active().path.is_some() {
            self.state.servers.dirty.insert(id, now);
            self.state.gutter.dirty.insert(id, now);
        }
    }

    /// Remembers the caret's line for the rendering.
    pub(crate) fn follow_caret(&mut self)
        requires
            old(self).state.wf(),
        ensures
            final(self).state.wf(),
            final(self).state == old(self).state.following_caret(),
            final(self).ivars == old(self).ivars,
            final(self).effects == old(self).effects,
    {
        let id = self.state.pane.docs.active().id;
        if self.state.pane.preview.is_some() && default_preview(
            self.state.pane.docs.active(),
        ).is_some() {
            let line = self.state.pane.docs.active().cursor_line();
            self.state.pane.live_line = Some(LinePlace { buffer: id, line });
        }
    }

    /// What an edit of the document leads to: the servers and the gutter hear
    /// of it, the list follows or goes, and the change gets on screen.
    pub fn after_edit(&mut self, now: u64)
        requires
            old(self).state.wf(),
        ensures
            final(self).state.wf(),
            final(self).follows_edit(*old(self), now),
    {
        let ghost mut done = seq![Effect::Run(Task::Reparse)];
        self.effects.push(Effect::Run(Task::Reparse));
        assert(self.effects@ =~= old(self).effects@ + done);
        let stays = match self.completion_prefix() {
            Some(prefix) => !any_space(prefix.as_str()),
            None => false,
        };
        self.stamp_front(now);
        if stays {
            self.effects.push(Effect::Rank);
            proof {
                done = done + seq![Effect::Rank];
            }
            assert(self.effects@ =~= old(self).effects@ + done);
        } else {
            self.state.hints.completion = None;
        }
        self.follow_caret();
        self.effects.push(Effect::ScrollToCursor);
        self.effects.push(Effect::ResumeDisplayLink);
        self.effects.push(Effect::SyncTitle);
        assert(self.effects@ =~= old(self).effects@ + old(self).edit_work());
        self.show(now);
        assert(self.effects@ =~= old(self).effects@ + (old(self).edit_work() + old(self).pumping(
            now,
        )));
    }

    /// The list got its candidates ranked.
    pub fn refiltered(&mut self, ranked: Vec<Candidate>)
        requires
            old(self).state.wf(),
        ensures
            final(self).state.wf(),
            match old(self).state.hints.completion {
                None => *final(self) == *old(self),
                Some(popup) => {
                    &&& final(self).state.hints.completion matches Some(after)
                    &&& after.offers(popup, ranked)
                    &&& final(self).ivars == old(self).ivars
                    &&& final(self).effects == old(self).effects
                    &&& final(self).state == (State {
                        hints: Hints { completion: Some(after), ..old(self).state.hints },
                        ..old(self).state
                    })
                },
            },
    {
        if let Some(popup) = &mut self.state.hints.completion {
            popup.refilter(ranked);
        }
    }

    /// What has to happen after [`EditorView::edit_focused`] changed some
    /// text.
    pub fn after_focused_edit(&mut self, focus: Focus, now: u64)
        requires
            old(self).state.wf(),
        ensures
            final(self).state.wf(),
            match focus {
                Focus::Document => final(self).follows_edit(*old(self), now),
                Focus::FindQuery => final(self).shows(
                    *old(self),
                    old(self).state,
                    seq![Effect::Run(Task::RefreshFind)],
                    now,
                ),
                Focus::Goto => final(self).shows(
                    *old(self),
                    old(self).state,
                    Seq::empty(),
                    now,
                ),
                // A different palette query invalidates the selected row.
                Focus::Field => final(self).shows(
                    *old(self),
                    match old(self).state.fields.palette {
                        Some(palette) => old(self).state.with_palette(
                            Some(PaletteState { selected: 0, ..palette }),
                            0,
                        ),
                        None => old(self).state,
                    },
                    Seq::empty(),
                    now,
                ),
            },
    {
        match focus {
            Focus::Document => {
                self.after_edit(now);
            },
            Focus::FindQuery => {
                self.effects.push(Effect::Run(Task::RefreshFind));
                let ghost done = seq![Effect::Run(Task::RefreshFind)];
                assert(self.effects@ =~= old(self).effects@ + done);
                self.show(now);
                assert(self.effects@ =~= old(self).effects@ + (done + old(self).pumping(now)));
            },
            Focus::Goto => {
                self.show(now);
            },
            Focus::Field => {
                if let Some(palette) = &mut self.state.fields.palette {
                    palette.selected = 0;
                    self.state.fields.palette_scroll = 0;
                }
                self.show(now);
            },
        }
    }

    /// Gets a change that did not come from a key press onto the screen.
    pub fn show_input_change(&mut self, now: u64)
        ensures
            old(self).state.wf() ==> final(self).state.wf(),
            old(self).ivars.in_key_down ==> *final(self) == *old(self),
            !old(self).ivars.in_key_down ==> final(self).shows(
                *old(self),
                old(self).state,
                seq![Effect::Run(Task::Reparse), Effect::SyncTitle],
                now,
            ),
    {
        if self.ivars.in_key_down {
            return;
        }
        self.effects.push(Effect::Run(Task::Reparse));
        self.effects.push(Effect::SyncTitle);
        let ghost done = seq![Effect::Run(Task::Reparse), Effect::SyncTitle];
        assert(self.effects@ =~= old(self).effects@ + done);
        self.show(now);
        assert(self.effects@ =~= old(self).effects@ + (done + old(self).pumping(now)));
    }
}

/// Whether `c` is a digit.
pub open spec fn is_digit(c: char) -> bool {
    '0' <= c <= '9'
}

/// The digits of `text`.
pub fn digits_of(text: &str) -> (digits: String)
    ensures
        digits@ == text@.filter(|c: char| is_digit(c)),
{
    let mut digits: String = String::new();
    for c in it: text.chars()
        invariant
            it.seq() == text@,
            digits@ == text@.take(it.index()).filter(|c: char| is_digit(c)),
    {
        proof {
            let head = text@.take(it.index());
            assert(text@.take(it.index() + 1) =~= head.push(c));
            reveal(Seq::filter);
            assert(head.push(c).drop_last() =~= head);
        }
        if '0' <= c && c <= '9' {
            digits.push(c);
        }
    }
    assert(text@.take(text@.len() as int) =~= text@);
    digits
}

/// What committed text puts in: into the document what was typed, into the
/// line-number field digits, into any other field one line.
pub open spec fn committed(focus: Focus, text: Seq<char>) -> Seq<char> {
    match focus {
        Focus::Document => text::typed(text),
        Focus::Goto => text.filter(|c: char| is_digit(c)),
        Focus::FindQuery | Focus::Field => text::typed(text::first_line(text)),
    }
}

/// How `put` gets in. One character at a time goes through the pairing path;
/// a longer run came from an input method and goes in verbatim.
pub open spec fn putting(target: Target, put: String) -> Seq<Effect> {
    let document = state::focus_of(target) == Focus::Document;
    if put@.len() == 0 {
        Seq::empty()
    } else {
        (if document && put@.len() == 1 {
            seq![Effect::InsertPaired(put)]
        } else {
            seq![Effect::Insert(target, put)]
        }) + (if document {
            seq![Effect::ScrollToCursor]
        } else {
            Seq::empty()
        })
    }
}

/// What is replaced first, when the input system says "instead of that".
pub open spec fn replacing(target: Target, replaced: Option<(usize, usize)>) -> Seq<Effect> {
    match replaced {
        Some((start, length)) => seq![Effect::SelectInput(target, start, length)],
        None => Seq::empty(),
    }
}

impl EditorView {
    /// This is `before` with `put` put into what has the keyboard, out of the
    /// committed `text`.
    pub open spec fn commits(
        &self,
        before: EditorView,
        put: String,
        text: String,
        replaced: Option<(usize, usize)>,
    ) -> bool {
        let target = before.state.target();
        let focus = state::focus_of(target);
        let front = before.state.pane.docs.front();
        let done = if focus == Focus::Document && front.preview_file {
            Seq::empty()
        } else {
            replacing(target, replaced) + putting(target, put)
        };
        match focus {
            Focus::FindQuery => self.becomes(
                before,
                before.state,
                done + seq![Effect::Run(Task::RefreshFind)],
            ),
            Focus::Field => self.becomes(
                before,
                match before.state.fields.palette {
                    Some(palette) => before.state.with_palette(
                        Some(PaletteState { selected: 0, ..palette }),
                        before.state.fields.palette_scroll,
                    ),
                    None => before.state,
                },
                done,
            ),
            Focus::Document => self.becomes(
                before,
                before.state,
                done + seq![Effect::Run(Task::LspAfterKey(true)), Effect::Typed(text)],
            ),
            Focus::Goto => self.becomes(before, before.state, done),
        }
    }

    /// Asks for `put` to be put into `target`.
    fn put_text(&mut self, target: Target, put: String, replaced: Option<(usize, usize)>)
        ensures
            final(self).becomes(
                *old(self),
                old(self).state,
                replacing(target, replaced) + putting(target, put),
            ),
    {
        let ghost before = self.effects@;
        if let Some((start, length)) = replaced {
            self.effects.push(Effect::SelectInput(target, start, length));
        }
        assert(self.effects@ =~= before + replacing(target, replaced));
        let ghost named = put;
        let document = focus_for(target) == Focus::Document;
        let chars = chars_of(put.as_str());
        let ghost start = before + replacing(target, replaced);
        if chars.len() > 0 {
            if document && chars.len() == 1 {
                self.effects.push(Effect::InsertPaired(put));
                assert(self.effects@ =~= start + seq![Effect::InsertPaired(named)]);
            } else {
                self.effects.push(Effect::Insert(target, put));
                assert(self.effects@ =~= start + seq![Effect::Insert(target, named)]);
            }
            if document {
                self.effects.push(Effect::ScrollToCursor);
            }
        }
        assert(self.effects@ =~= start + putting(target, named));
        assert(self.effects@ =~= before + (replacing(target, replaced) + putting(target, named)));
    }

    /// Puts committed text into whatever has the keyboard. Returns which.
    /// `replaced` is what the input system wants replaced: the accent menu
    /// replacing the letter that was held.
    pub fn commit_text(&mut self, text: String, replaced: Option<(usize, usize)>) -> (focus: Focus)
        requires
            old(self).state.wf(),
        ensures
            final(self).state.wf(),
            focus == state::focus_of(old(self).state.target()),
            exists|put: String|
                {
                    &&& put@ == committed(focus, text@)
                    &&& #[trigger] final(self).commits(*old(self), put, text, replaced)
                },
    {
        let target = focused_buffer(&self.state);
        let focus = focus_for(target);
        let put = match focus {
            Focus::Document => typed_text(text.as_str()),
            Focus::Goto => digits_of(text.as_str()),
            Focus::FindQuery | Focus::Field => single_line(text.as_str()),
        };
        let ghost named = put;
        let ghost whole = text;
        let inert = focus == Focus::Document && self.state.pane.docs.active().preview_file;
        let ghost done = if inert {
            Seq::empty()
        } else {
            replacing(target, replaced) + putting(target, named)
        };
        if !inert {
            self.put_text(target, put, replaced);
        }
        assert(self.effects@ =~= old(self).effects@ + done);
        match focus {
            Focus::FindQuery => {
                self.effects.push(Effect::Run(Task::RefreshFind));
                assert(self.effects@ =~= old(self).effects@ + (done + seq![
                    Effect::Run(Task::RefreshFind),
                ]));
            },
            Focus::Field => {
                if let Some(palette) = &mut self.state.fields.palette {
                    palette.selected = 0;
                }
            },
            Focus::Document => {
                self.effects.push(Effect::Run(Task::LspAfterKey(true)));
                self.effects.push(Effect::Typed(text));
                assert(self.effects@ =~= old(self).effects@ + (done + seq![
                    Effect::Run(Task::LspAfterKey(true)),
                    Effect::Typed(whole),
                ]));
            },
            Focus::Goto => {},
        }
        assert(self.commits(*old(self), named, whole, replaced));
        focus
    }
}

/// Nothing that is not a digit gets into the line-number field.
pub proof fn the_line_field_holds_digits(text: Seq<char>)
    ensures
        forall|i: int|
            0 <= i < committed(Focus::Goto, text).len() ==> is_digit(
                #[trigger] committed(Focus::Goto, text)[i],
            ),
{
    let digit = |c: char| is_digit(c);
    assert forall|i: int| 0 <= i < text.filter(digit).len() implies is_digit(
        #[trigger] text.filter(digit)[i],
    ) by {
        text.lemma_filter_pred(digit, i);
    }
}

} // verus!
