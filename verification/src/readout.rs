//! What the status line says.

use crate::buffer::{self, line_of, Buffer};
use crate::link::NOTE_TIME;
use crate::path::{self, file_name};
use crate::render::{self, Diagnostic};
use crate::state::{EditorView, State};
use crate::text::{self, chars_of, decimal, joined, joined3, text_of_chars};
use vstd::prelude::*;
use vstd::string::*;

verus! {

/// The first line of a text, without its line ending.
pub open spec fn leading_line(text: Seq<char>) -> Seq<char> {
    let line = text::first_line(text);
    if line.len() < text.len() && line.len() > 0 && line.last() == '\r' {
        line.drop_last()
    } else {
        line
    }
}

/// See [`leading_line`].
fn line_of_text(text: &str) -> (line: String)
    ensures
        line@ == leading_line(text@),
{
    let chars = chars_of(text);
    let mut end: usize = 0;
    while end < chars.len() && chars[end] != '\n'
        invariant
            end <= chars@.len(),
            forall|j: int| 0 <= j < end ==> chars@[j] != '\n',
        decreases chars@.len() - end,
    {
        end += 1;
    }
    proof {
        text@.index_of_first_ensures('\n');
        assert(text::first_line(text@) =~= text@.take(end as int));
        assert(text@.subrange(0, end as int) =~= text@.take(end as int));
    }
    if end < chars.len() && end > 0 && chars[end - 1] == '\r' {
        assert(text@.take(end as int).drop_last() =~= text@.subrange(0, end - 1));
        return text_of_chars(&chars, 0, end - 1);
    }
    text_of_chars(&chars, 0, end)
}

/// What a document is called in the status line.
pub open spec fn called(b: Buffer) -> Seq<char> {
    let file = match b.path {
        Some(place) => path::file_name_of(place@),
        None => None,
    };
    match file {
        Some(name) => name,
        None => match b.label {
            Some(label) => label@,
            None => "Untitled"@,
        },
    }
}

/// See [`called`].
fn name_of(b: &Buffer) -> (name: String)
    ensures
        name@ == called(*b),
{
    let file = match &b.path {
        Some(place) => file_name(place.as_str()),
        None => None,
    };
    match file {
        Some(name) => name,
        None => match &b.label {
            Some(label) => label.clone(),
            None => "Untitled".to_owned(),
        },
    }
}

/// Whether a document is saved, in words.
pub open spec fn saved_words(b: Buffer) -> Seq<char> {
    if b.read_only {
        "Read-only: over 512 MB"@
    } else if b.dirty {
        "Unsaved changes"@
    } else {
        "All changes saved"@
    }
}

/// Whether a diagnostic is about a line.
pub open spec fn is_about(d: Diagnostic, line: int) -> bool {
    d.start_line <= line <= d.end_line
}

/// The first diagnostic about a line.
pub open spec fn diagnostic_at(list: Seq<Diagnostic>, line: int) -> Option<int>
    decreases list.len(),
{
    if list.len() == 0 {
        None
    } else {
        match diagnostic_at(list.drop_last(), line) {
            Some(i) => Some(i),
            None => if is_about(list.last(), line) {
                Some(list.len() - 1)
            } else {
                None
            },
        }
    }
}

/// How many diagnostics are errors.
pub open spec fn error_count(list: Seq<Diagnostic>) -> nat
    decreases list.len(),
{
    if list.len() == 0 {
        0
    } else {
        error_count(list.drop_last()) + (if list.last().error {
            1nat
        } else {
            0
        })
    }
}

/// The counts in the status line: errors, and everything else as warnings.
pub open spec fn count_words(list: Seq<Diagnostic>) -> Seq<char> {
    if list.len() == 0 {
        ""@
    } else {
        "\u{2715} "@ + text::decimal_digits(error_count(list)) + "  \u{26a0} "@ + (
        text::decimal_digits((list.len() - error_count(list)) as nat) + "     "@)
    }
}

/// The diagnostics that are shown: those of the active document's server.
pub open spec fn shown_diagnostics(s: State, list: Seq<Diagnostic>) -> Seq<Diagnostic> {
    if render::has_server(s) {
        list
    } else {
        Seq::empty()
    }
}

/// Who last changed the caret's line, as the status line says it.
pub open spec fn blame_words(s: State) -> Seq<char> {
    let front = s.pane.docs.front();
    match s.gutter.blame {
        Some(blame) => if blame.place.buffer == front.id && blame.place.line == buffer::line_at(
            front.text@,
            front.cursor as int,
        ) && blame.text@.len() > 0 {
            "   \u{b7}   "@ + blame.text@
        } else {
            ""@
        },
        None => ""@,
    }
}

/// The steady-state readout.
pub open spec fn steady_words(s: State, unshaped: bool) -> Seq<char> {
    let front = s.pane.docs.front();
    called(front) + "   "@ + saved_words(front) + ((if unshaped {
        "   Long lines drawn without shaping"@
    } else {
        ""@
    }) + blame_words(s))
}

/// The status line's left side: a transient note, what is wrong at the caret,
/// or the steady-state readout.
pub open spec fn status_words(s: State, list: Seq<Diagnostic>, unshaped: bool, now: u64) -> Seq<char> {
    let front = s.pane.docs.front();
    let line = buffer::line_at(front.text@, front.cursor as int) as int;
    let shown = shown_diagnostics(s, list);
    if s.status.message matches Some(note) && now - note.at < NOTE_TIME {
        s.status.message->0.text@
    } else {
        match diagnostic_at(shown, line) {
            Some(i) => leading_line(shown[i].message@),
            None => steady_words(s, unshaped),
        }
    }
}

/// See [`diagnostic_at`].
fn find_diagnostic(list: &Vec<Diagnostic>, line: usize) -> (at: Option<usize>)
    ensures
        match (at, diagnostic_at(list@, line as int)) {
            (Some(i), Some(j)) => i == j && i < list@.len(),
            (None, None) => true,
            _ => false,
        },
{
    let mut found: Option<usize> = None;
    let mut i: usize = 0;
    assert(list@.take(0) =~= Seq::empty());
    while i < list.len()
        invariant
            i <= list@.len(),
            match (found, diagnostic_at(list@.take(i as int), line as int)) {
                (Some(a), Some(b)) => a == b && a < i,
                (None, None) => true,
                _ => false,
            },
        decreases list@.len() - i,
    {
        assert(list@.take(i + 1).drop_last() =~= list@.take(i as int));
        if found.is_none() && list[i].start_line as u64 <= line as u64 && line as u64
            <= list[i].end_line as u64 {
            found = Some(i);
        }
        i += 1;
    }
    assert(list@.take(list@.len() as int) =~= list@);
    found
}

/// See [`error_count`].
fn count_errors(list: &Vec<Diagnostic>) -> (n: usize)
    ensures
        n == error_count(list@),
        n <= list@.len(),
{
    let mut n: usize = 0;
    let mut i: usize = 0;
    assert(list@.take(0) =~= Seq::empty());
    while i < list.len()
        invariant
            i <= list@.len(),
            n == error_count(list@.take(i as int)),
            n <= i,
        decreases list@.len() - i,
    {
        assert(list@.take(i + 1).drop_last() =~= list@.take(i as int));
        if list[i].error {
            n += 1;
        }
        i += 1;
    }
    assert(list@.take(list@.len() as int) =~= list@);
    n
}

/// The rest of the status line's right side.
pub struct Detail {
    /// The caret's column, counted from zero.
    pub column: usize,
    /// What Git says of the branch.
    pub branch: String,
    /// The encoding and the line endings on disk.
    pub encoding: String,
    pub endings: String,
    /// How long input waits, in place of everything else.
    pub latency: Option<String>,
}

/// The status line's right side: the assistant when it is there, the branch,
/// what is wrong, where the caret is, and how the file is written.
pub open spec fn detail_words(s: State, list: Seq<Diagnostic>, detail: Detail) -> Seq<char> {
    let front = s.pane.docs.front();
    let line = buffer::line_at(front.text@, front.cursor as int);
    match detail.latency {
        Some(latency) => latency@,
        None => {
            let there = s.claude.bridge matches Some(bridge) && bridge.connected;
            let assistant = if there {
                "\u{273b} "@ + s.claude.assistant.name@ + "     "@
            } else {
                ""@
            };
            let branch = if detail.branch@.len() == 0 {
                ""@
            } else {
                detail.branch@ + "     "@
            };
            let caret = "Ln "@ + text::decimal_digits(line + 1) + ", Col "@
                + text::decimal_digits((detail.column + 1) as nat);
            assistant + branch + (count_words(shown_diagnostics(s, list)) + caret + ("     "@
                + detail.encoding@ + "     "@ + detail.endings@))
        },
    }
}

impl EditorView {
    /// What is wrong with the active document, when its server speaks.
    fn counts(&self, list: &Vec<Diagnostic>) -> (words: String)
        requires
            self.state.wf(),
        ensures
            words@ == count_words(shown_diagnostics(self.state, list@)),
    {
        if list.len() == 0 || !render::speaks(&self.state) {
            return "".to_owned();
        }
        let errors = count_errors(list);
        let warnings = list.len() - errors;
        let tail = joined(decimal(warnings).as_str(), "     ");
        let head = joined3("\u{2715} ", decimal(errors).as_str(), "  \u{26a0} ");
        joined(head.as_str(), tail.as_str())
    }

    /// The status line's left side. `unshaped` is whether lines were drawn
    /// without shaping.
    pub fn status_line(&self, list: &Vec<Diagnostic>, unshaped: bool, now: u64) -> (words: String)
        requires
            self.state.wf(),
        ensures
            words@ == status_words(self.state, list@, unshaped, now),
    {
        if let Some(note) = &self.state.status.message {
            if now < note.at || now - note.at < NOTE_TIME {
                return note.text.clone();
            }
        }
        let line = self.state.pane.docs.active().cursor_line();
        if render::speaks(&self.state) {
            if let Some(i) = find_diagnostic(list, line) {
                return line_of_text(list[i].message.as_str());
            }
        }
        self.steady(unshaped)
    }

    /// See [`steady_words`].
    fn steady(&self, unshaped: bool) -> (words: String)
        requires
            self.state.wf(),
        ensures
            words@ == steady_words(self.state, unshaped),
    {
        let front = self.state.pane.docs.active();
        let name = name_of(front);
        let saved = if front.read_only {
            "Read-only: over 512 MB"
        } else if front.dirty {
            "Unsaved changes"
        } else {
            "All changes saved"
        };
        let long = if unshaped {
            "   Long lines drawn without shaping"
        } else {
            ""
        };
        let blame = self.blamed();
        let head = joined3(name.as_str(), "   ", saved);
        let tail = joined(long, blame.as_str());
        joined(head.as_str(), tail.as_str())
    }

    /// See [`blame_words`].
    fn blamed(&self) -> (words: String)
        requires
            self.state.wf(),
        ensures
            words@ == blame_words(self.state),
    {
        let front = self.state.pane.docs.active();
        let line = front.cursor_line();
        match &self.state.gutter.blame {
            Some(blame) => if blame.place.buffer == front.id && blame.place.line == line
                && chars_of(blame.text.as_str()).len() > 0 {
                joined("   \u{b7}   ", blame.text.as_str())
            } else {
                "".to_owned()
            },
            None => "".to_owned(),
        }
    }

    /// The status line's right side.
    pub fn detail_line(&self, list: &Vec<Diagnostic>, detail: &Detail) -> (words: String)
        requires
            self.state.wf(),
            detail.column < usize::MAX,
            self.state.pane.docs.front().text@.len() < usize::MAX,
        ensures
            words@ == detail_words(self.state, list@, *detail),
    {
        if let Some(latency) = &detail.latency {
            return latency.clone();
        }
        let there = match &self.state.claude.bridge {
            Some(bridge) => bridge.connected,
            None => false,
        };
        let assistant = if there {
            joined3("\u{273b} ", self.state.claude.assistant.name.as_str(), "     ")
        } else {
            "".to_owned()
        };
        let branch = if chars_of(detail.branch.as_str()).len() == 0 {
            "".to_owned()
        } else {
            joined(detail.branch.as_str(), "     ")
        };
        let front = self.state.pane.docs.active();
        let line = line_of(&front.text, front.cursor);
        let row = decimal(line + 1);
        let at = joined3("Ln ", row.as_str(), ", Col ");
        let caret = joined(at.as_str(), decimal(detail.column + 1).as_str());
        let counts = self.counts(list);
        let head = joined(assistant.as_str(), branch.as_str());
        let middle = joined(counts.as_str(), caret.as_str());
        let written = joined3("     ", detail.encoding.as_str(), "     ");
        let tail = joined(written.as_str(), detail.endings.as_str());
        let rest = joined(middle.as_str(), tail.as_str());
        joined(head.as_str(), rest.as_str())
    }
}

} // verus!
