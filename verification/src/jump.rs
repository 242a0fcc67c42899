//! Going somewhere: to a definition, a symbol, or a place that a terminal
//! names.

use crate::buffer::{self, offset_of_line};
use crate::formatting;
use crate::path::{self, join, parent};
use crate::state::{EditorView, Effect, State, Task};
use crate::terminal::TerminalPanel;
use crate::text::{chars_of, joined, text_of_chars};
use vstd::prelude::*;
use vstd::string::*;

verus! {

/// How far into a line a column is looked for.
pub const LINE_REACH: usize = 4096;

/// Where the character after the one at `at` starts.
pub open spec fn after_char(text: Seq<u8>, at: int, limit: int) -> int
    decreases limit - at,
{
    if at + 1 >= limit || !formatting::continues(text[at + 1]) {
        at + 1
    } else {
        after_char(text, at + 1, limit)
    }
}

/// Where the caret is after `n` characters from `at`: at the end of the line,
/// or at `limit`, when there are fewer.
pub open spec fn after_chars(text: Seq<u8>, at: int, limit: int, n: nat) -> int
    decreases n,
{
    if n == 0 || at >= limit || text[at] == buffer::NEWLINE {
        at
    } else {
        after_chars(text, after_char(text, at, limit), limit, (n - 1) as nat)
    }
}

/// See [`after_char`].
fn next_char(text: &Vec<u8>, at: usize, limit: usize) -> (next: usize)
    requires
        at < limit <= text@.len(),
    ensures
        next == after_char(text@, at as int, limit as int),
        at < next <= limit,
{
    let mut i: usize = at;
    while i + 1 < limit && text[i + 1] >= 0x80 && text[i + 1] < 0xc0
        invariant
            at <= i < limit <= text@.len(),
            after_char(text@, i as int, limit as int) == after_char(
                text@,
                at as int,
                limit as int,
            ),
        decreases limit - i,
    {
        i += 1;
    }
    i + 1
}

/// See [`after_chars`].
fn skip_chars(text: &Vec<u8>, at: usize, limit: usize, n: usize) -> (end: usize)
    requires
        at <= limit <= text@.len(),
    ensures
        end == after_chars(text@, at as int, limit as int, n as nat),
        at <= end <= limit,
{
    let mut i: usize = at;
    let mut left: usize = n;
    while left > 0 && i < limit && text[i] != buffer::NEWLINE
        invariant
            at <= i <= limit <= text@.len(),
            left <= n,
            after_chars(text@, i as int, limit as int, left as nat) == after_chars(
                text@,
                at as int,
                limit as int,
                n as nat,
            ),
        decreases left,
    {
        i = next_char(text, i, limit);
        left -= 1;
    }
    i
}

/// Where line `line` and column `column`, both counted from one, are.
pub open spec fn place_at(text: Seq<u8>, line: int, column: Option<usize>) -> int {
    let start = buffer::line_offset(text, (line - 1) as nat);
    let limit = if start + LINE_REACH < text.len() {
        start + LINE_REACH
    } else {
        text.len() as int
    };
    match column {
        Some(column) => after_chars(text, start, limit, (column - 1) as nat),
        None => start,
    }
}

impl EditorView {
    /// What a server found is open: the caret goes to `offset`, if `place` is
    /// what came to the front.
    pub fn definition_opened(&mut self, place: &str, offset: usize)
        requires
            old(self).state.wf(),
        ensures
            final(self).state.wf(),
            ({
                let front = old(self).state.pane.docs.front();
                let tail = seq![Effect::SyncTitle, Effect::Run(Task::Reparse)];
                if front.is_at(place@) {
                    &&& final(self).state.pane.docs.fronts(
                        old(self).state.pane.docs,
                        front.selecting(offset, offset),
                    )
                    &&& final(self).becomes(
                        *old(self),
                        old(self).state.with_docs(final(self).state.pane.docs),
                        seq![Effect::ScrollToCursor] + tail,
                    )
                } else {
                    final(self).becomes(*old(self), old(self).state, tail)
                }
            }),
    {
        let ghost mut done = Seq::<Effect>::empty();
        if self.state.pane.docs.active().at_path(place) {
            self.state.pane.docs.select_in_front(offset, offset);
            self.effects.push(Effect::ScrollToCursor);
            proof {
                done = seq![Effect::ScrollToCursor];
            }
        }
        assert(self.effects@ =~= old(self).effects@ + done);
        self.effects.push(Effect::SyncTitle);
        self.effects.push(Effect::Run(Task::Reparse));
        let ghost tail = seq![Effect::SyncTitle, Effect::Run(Task::Reparse)];
        assert(self.effects@ =~= old(self).effects@ + (done + tail));
        assert(Seq::<Effect>::empty() + tail =~= tail);
    }

    /// This is `before` with the file of a symbol asked for.
    pub open spec fn opens_symbol(
        &self,
        before: EditorView,
        place: String,
        line: usize,
        folder: String,
        now: u64,
    ) -> bool {
        self.shows(
            before,
            before.state,
            seq![
                Effect::OpenReference(place, Some(line), None, folder),
                Effect::RevealInTree(place),
            ],
            now,
        )
    }

    /// Jumps to a palette symbol: its line in the active document, or opens
    /// its file first. Lines count from zero.
    pub fn go_to_symbol(&mut self, place: Option<String>, line: u32, now: u64)
        requires
            old(self).state.wf(),
            line + 1 <= usize::MAX,
        ensures
            final(self).state.wf(),
            match place {
                Some(place) => exists|folder: String|
                    {
                        &&& folder@ == (match path::parent_of(place@) {
                            Some(folder) => folder,
                            None => Seq::empty(),
                        })
                        &&& #[trigger] final(self).opens_symbol(
                            *old(self),
                            place,
                            (line + 1) as usize,
                            folder,
                            now,
                        )
                    },
                None => {
                    let front = old(self).state.pane.docs.front();
                    let at = buffer::line_offset(front.text@, line as nat) as usize;
                    &&& final(self).state.pane.docs.fronts(
                        old(self).state.pane.docs,
                        front.selecting(at, at),
                    )
                    &&& final(self).shows(
                        *old(self),
                        old(self).state.with_docs(final(self).state.pane.docs),
                        seq![Effect::ScrollToCursor],
                        now,
                    )
                },
            },
    {
        match place {
            Some(place) => {
                let folder = match parent(place.as_str()) {
                    Some(folder) => folder,
                    None => String::new(),
                };
                let number: usize = line as usize + 1;
                let ghost from = folder;
                let copy = place.clone();
                self.effects.push(Effect::OpenReference(copy, Some(number), None, folder));
                self.effects.push(Effect::RevealInTree(place));
                let ghost done = seq![
                    Effect::OpenReference(place, Some(number), None, from),
                    Effect::RevealInTree(place),
                ];
                assert(self.effects@ =~= old(self).effects@ + done);
                self.show(now);
                assert(self.effects@ =~= old(self).effects@ + (done + old(self).pumping(now)));
                assert(self.opens_symbol(*old(self), place, number, from, now));
            },
            None => {
                let at = offset_of_line(&self.state.pane.docs.active().text, line as usize);
                self.state.pane.docs.select_in_front(at, at);
                self.effects.push(Effect::ScrollToCursor);
                let ghost done = seq![Effect::ScrollToCursor];
                assert(self.effects@ =~= old(self).effects@ + done);
                self.show(now);
                assert(self.effects@ =~= old(self).effects@ + (done + old(self).pumping(now)));
            },
        }
    }
}

/// Whether `s` is meant from the home folder.
pub open spec fn from_home(s: Seq<char>) -> bool {
    s.len() >= 2 && s[0] == '~' && s[1] == '/'
}

/// Where a file that something refers to may be: as it says when that is a
/// full path or one from home, otherwise from `cwd` and then from the project.
pub open spec fn candidates(
    s: Seq<char>,
    home: Option<Seq<char>>,
    cwd: Seq<char>,
    root: Option<Seq<char>>,
) -> Seq<Seq<char>> {
    if path::is_absolute(s) {
        seq![s]
    } else if from_home(s) && home is Some {
        seq![path::join_of(home->0, s.skip(2))]
    } else if root is Some {
        seq![path::join_of(cwd, s), path::join_of(root->0, s)]
    } else {
        seq![path::join_of(cwd, s)]
    }
}

/// The view of an optional text.
pub open spec fn maybe(s: Option<String>) -> Option<Seq<char>> {
    match s {
        Some(s) => Some(s@),
        None => None,
    }
}

impl EditorView {
    /// Where to look for a file that something refers to; see [`candidates`].
    pub fn reference_candidates(&self, place: &str, home: &Option<String>, cwd: &str) -> (found:
        Vec<String>)
        ensures
            path::texts(found@) == candidates(
                place@,
                maybe(*home),
                cwd@,
                maybe(self.state.side.tree.root),
            ),
    {
        let mut found: Vec<String> = Vec::new();
        let chars = chars_of(place);
        let ghost wanted = candidates(
            place@,
            maybe(*home),
            cwd@,
            maybe(self.state.side.tree.root),
        );
        if chars.len() > 0 && chars[0] == '/' {
            found.push(place.to_owned());
            assert(path::texts(found@) =~= wanted);
            return found;
        }
        if chars.len() >= 2 && chars[0] == '~' && chars[1] == '/' {
            if let Some(home) = home {
                let rest = text_of_chars(&chars, 2, chars.len());
                assert(chars@.subrange(2, chars@.len() as int) =~= place@.skip(2));
                found.push(join(home.as_str(), rest.as_str()));
                assert(path::texts(found@) =~= wanted);
                return found;
            }
        }
        found.push(join(cwd, place));
        if let Some(root) = &self.state.side.tree.root {
            found.push(join(root.as_str(), place));
        }
        assert(path::texts(found@) =~= wanted);
        found
    }

    /// Opens the first candidate that is a file, `found`, for the reference
    /// `place`; see [`EditorView::reference_opened`].
    pub fn open_reference(&mut self, place: &str, found: Option<String>, now: u64)
        requires
            old(self).state.wf(),
        ensures
            final(self).state.wf(),
            match found {
                Some(found) => final(self).becomes(
                    *old(self),
                    old(self).state,
                    seq![Effect::LoadPath(found)],
                ),
                None => {
                    &&& final(self).state.says("no file "@ + place@, now)
                    &&& final(self).becomes(
                        *old(self),
                        old(self).state.saying(final(self).state.status.message->0),
                        seq![Effect::ResumeDisplayLink],
                    )
                },
            },
    {
        match found {
            Some(found) => {
                self.ask(Effect::LoadPath(found));
            },
            None => {
                self.say(joined("no file ", place), now);
                self.ask(Effect::ResumeDisplayLink);
            },
        }
    }

    /// The file something refers to is open: the caret goes to its place, and
    /// the editor has the keys, since it has the file now.
    pub fn reference_opened(&mut self, line: Option<usize>, column: Option<usize>)
        requires
            old(self).state.wf(),
            line matches Some(line) ==> line > 0,
            column matches Some(column) ==> column > 0,
        ensures
            final(self).state.wf(),
            ({
                let front = old(self).state.pane.docs.front();
                let docs = final(self).state.pane.docs;
                let kept = State {
                    terminal: TerminalPanel { focus: false, ..old(self).state.terminal },
                    ..old(self).state
                };
                let tail = seq![Effect::SyncTitle, Effect::Run(Task::Reparse)];
                match line {
                    Some(line) => {
                        let at = place_at(front.text@, line as int, column) as usize;
                        &&& docs.fronts(old(self).state.pane.docs, front.selecting(at, at))
                        &&& final(self).becomes(
                            *old(self),
                            kept.with_docs(docs),
                            seq![Effect::ScrollToCursor] + tail,
                        )
                    },
                    None => final(self).becomes(*old(self), kept, tail),
                }
            }),
    {
        let ghost mut done = Seq::<Effect>::empty();
        if let Some(line) = line {
            let text = &self.state.pane.docs.active().text;
            let start = offset_of_line(text, line - 1);
            let at = match column {
                Some(column) => {
                    let limit = if text.len() - start > LINE_REACH {
                        start + LINE_REACH
                    } else {
                        text.len()
                    };
                    skip_chars(text, start, limit, column - 1)
                },
                None => start,
            };
            self.state.pane.docs.select_in_front(at, at);
            self.effects.push(Effect::ScrollToCursor);
            proof {
                done = seq![Effect::ScrollToCursor];
            }
        }
        assert(self.effects@ =~= old(self).effects@ + done);
        self.state.terminal.focus = false;
        self.effects.push(Effect::SyncTitle);
        self.effects.push(Effect::Run(Task::Reparse));
        let ghost tail = seq![Effect::SyncTitle, Effect::Run(Task::Reparse)];
        assert(self.effects@ =~= old(self).effects@ + (done + tail));
        assert(Seq::<Effect>::empty() + tail =~= tail);
    }
}

} // verus!
