//! What the find bar, the palette and the suggestions say.

use crate::buffer::{self, line_end, slice_of, Buffer, Edit, Field};
use crate::completion::CompletionPopup;
use crate::find::{FindBar, ProjectHit, RESULT_ROWS};
use crate::palette::{self, palette_mode, PaletteMode};
use crate::path::{self, strip_prefix};
use crate::state::{EditorView, State};
use crate::text::{
    self, chars_of, decimal, joined, joined3, read, starts_with, text_of_chars, trim,
};
use vstd::prelude::*;
use vstd::string::*;

verus! {

/// How long a copied code block says so, in milliseconds.
pub const COPIED_TIME: u64 = 3_000;

/// The largest text that is searched while it is drawn.
pub const COUNTED_BYTES: usize = 2 * 1024 * 1024;

/// Whether the active document is searched while it is drawn.
pub open spec fn searches(s: State) -> bool {
    s.fields.find matches Some(bar) && bar.query.text@.len() > 0 && s.pane.docs.front().text@.len()
        <= COUNTED_BYTES
}

/// The first match that starts at the caret or after it.
pub open spec fn match_from(found: Seq<Edit>, cursor: int) -> Option<int>
    decreases found.len(),
{
    if found.len() == 0 {
        None
    } else {
        match match_from(found.drop_last(), cursor) {
            Some(i) => Some(i),
            None => if found.last().start >= cursor {
                Some(found.len() - 1)
            } else {
                None
            },
        }
    }
}

/// What the find field says of what it found: "3 of 17", so that a search that
/// found nothing can be told from one that found everything.
pub open spec fn count_label(s: State, found: Option<Vec<Edit>>) -> Option<Seq<char>> {
    let bar = s.fields.find->0;
    if bar.project {
        if bar.results@.len() == 0 {
            None
        } else {
            Some(text::decimal_digits(bar.results@.len()) + " found"@)
        }
    } else {
        match found {
            Some(found) => if !searches(s) {
                None
            } else if found@.len() == 0 {
                Some("No matches"@)
            } else {
                let at = match match_from(found@, s.pane.docs.front().cursor as int) {
                    Some(i) => i,
                    None => 0,
                };
                Some(
                    text::decimal_digits((at + 1) as nat) + " of "@ + text::decimal_digits(
                        found@.len(),
                    ),
                )
            },
            None => None,
        }
    }
}

/// See [`match_from`].
fn find_from(found: &Vec<Edit>, cursor: usize) -> (at: Option<usize>)
    ensures
        match (at, match_from(found@, cursor as int)) {
            (Some(i), Some(j)) => i == j && i < found@.len(),
            (None, None) => true,
            _ => false,
        },
{
    let mut at: Option<usize> = None;
    let mut i: usize = 0;
    assert(found@.take(0) =~= Seq::empty());
    while i < found.len()
        invariant
            i <= found@.len(),
            match (at, match_from(found@.take(i as int), cursor as int)) {
                (Some(a), Some(b)) => a == b && a < i,
                (None, None) => true,
                _ => false,
            },
        decreases found@.len() - i,
    {
        assert(found@.take(i + 1).drop_last() =~= found@.take(i as int));
        if at.is_none() && found[i].start >= cursor {
            at = Some(i);
        }
        i += 1;
    }
    assert(found@.take(found@.len() as int) =~= found@);
    at
}

/// See [`searches`].
pub(crate) fn searching(s: &State) -> (r: bool)
    requires
        s.wf(),
    ensures
        r == searches(*s),
{
    match &s.fields.find {
        Some(bar) => chars_of(bar.query.text.as_str()).len() > 0
            && s.pane.docs.active().text.len() <= COUNTED_BYTES,
        None => false,
    }
}

impl EditorView {
    /// Whether the active document is searched while it is drawn.
    pub fn search_runs(&self) -> (r: bool)
        requires
            self.state.wf(),
        ensures
            r == searches(self.state),
    {
        searching(&self.state)
    }

    /// What the find field says of what it found.
    pub fn find_count(&self, found: &Option<Vec<Edit>>) -> (label: Option<String>)
        requires
            self.state.wf(),
            self.state.fields.find is Some,
        ensures
            match (label, count_label(self.state, *found)) {
                (Some(label), Some(text)) => label@ == text,
                (None, None) => true,
                _ => false,
            },
    {
        let (project, results) = match &self.state.fields.find {
            Some(bar) => (bar.project, bar.results.len()),
            None => (false, 0),
        };
        if project {
            if results == 0 {
                return None;
            }
            return Some(joined(decimal(results).as_str(), " found"));
        }
        if !self.search_runs() {
            return None;
        }
        match found {
            None => None,
            Some(found) => {
                if found.len() == 0 {
                    return Some("No matches".to_owned());
                }
                let at = match find_from(found, self.state.pane.docs.active().cursor) {
                    Some(i) => i,
                    None => 0,
                };
                Some(
                    joined3(
                        decimal(at + 1).as_str(),
                        " of ",
                        decimal(found.len()).as_str(),
                    ),
                )
            },
        }
    }
}

/// Whether there is something to step through or replace.
pub open spec fn has_matches(s: State, found: Option<Vec<Edit>>) -> bool {
    let bar = s.fields.find->0;
    if bar.project {
        bar.results@.len() > 0
    } else {
        searches(s) && (found matches Some(found) && found@.len() > 0)
    }
}

/// A button of the find bar.
#[derive(Clone, Copy, Debug)]
pub struct Button {
    pub label: &'static str,
    pub enabled: bool,
}

/// Whether a button says `label` and is enabled or not.
pub open spec fn is_button(b: Button, label: Seq<char>, enabled: bool) -> bool {
    b.label@ == label && b.enabled == enabled
}

impl EditorView {
    /// The buttons of the find bar: back, forward, close, and the two of the
    /// replacement row.
    pub fn find_buttons(&self, found: &Option<Vec<Edit>>) -> (buttons: Vec<Button>)
        requires
            self.state.wf(),
            self.state.fields.find is Some,
        ensures
            ({
                let any = has_matches(self.state, *found);
                let project = self.state.fields.find->0.project;
                &&& buttons@.len() == 5
                &&& is_button(buttons@[0], "\u{2039}"@, any)
                &&& is_button(buttons@[1], "\u{203a}"@, any)
                &&& is_button(buttons@[2], "\u{2715}"@, true)
                &&& is_button(
                    buttons@[3],
                    if project {
                        "Search"@
                    } else {
                        "Replace"@
                    },
                    project || any,
                )
                &&& is_button(
                    buttons@[4],
                    if project {
                        "Replace All"@
                    } else {
                        "All"@
                    },
                    any,
                )
            }),
    {
        let (project, results) = match &self.state.fields.find {
            Some(bar) => (bar.project, bar.results.len()),
            None => (false, 0),
        };
        let any = if project {
            results > 0
        } else {
            self.search_runs() && match found {
                Some(found) => found.len() > 0,
                None => false,
            }
        };
        let mut buttons: Vec<Button> = Vec::new();
        buttons.push(Button { label: "\u{2039}", enabled: any });
        buttons.push(Button { label: "\u{203a}", enabled: any });
        buttons.push(Button { label: "\u{2715}", enabled: true });
        if project {
            buttons.push(Button { label: "Search", enabled: true });
            buttons.push(Button { label: "Replace All", enabled: any });
        } else {
            buttons.push(Button { label: "Replace", enabled: any });
            buttons.push(Button { label: "All", enabled: any });
        }
        buttons
    }

    /// What the two fields of the find bar say while they are empty.
    pub fn find_placeholders(&self) -> (labels: (&'static str, &'static str))
        requires
            self.state.fields.find is Some,
        ensures
            self.state.fields.find->0.project ==> labels.0@ == "Search the project"@ && labels.1@
                == "Replace in every file listed"@,
            !self.state.fields.find->0.project ==> labels.0@ == "Find"@ && labels.1@
                == "Replace with"@,
    {
        let project = match &self.state.fields.find {
            Some(bar) => bar.project,
            None => false,
        };
        if project {
            ("Search the project", "Replace in every file listed")
        } else {
            ("Find", "Replace with")
        }
    }

    /// The chips of the find bar, which show their state.
    pub fn find_chips(&self) -> (chips: Vec<Button>)
        requires
            self.state.fields.find is Some,
        ensures
            ({
                let bar = self.state.fields.find->0;
                &&& chips@.len() == 4
                &&& is_button(chips@[0], "Aa"@, bar.options.case_sensitive)
                &&& is_button(chips@[1], "Word"@, bar.options.whole_word)
                &&& is_button(chips@[2], ".*"@, bar.options.regex)
                &&& is_button(chips@[3], "Project"@, bar.project)
            }),
    {
        let mut chips: Vec<Button> = Vec::new();
        if let Some(bar) = &self.state.fields.find {
            chips.push(Button { label: "Aa", enabled: bar.options.case_sensitive });
            chips.push(Button { label: "Word", enabled: bar.options.whole_word });
            chips.push(Button { label: ".*", enabled: bar.options.regex });
            chips.push(Button { label: "Project", enabled: bar.project });
        }
        chips
    }
}

/// A row of the results of a project search.
pub struct ResultRow {
    /// Where it is.
    pub place: String,
    /// What it says.
    pub snippet: String,
    pub selected: bool,
}

/// A file's place, from the project's folder when it is in it.
pub open spec fn short_place(place: Seq<char>, root: Option<String>) -> Seq<char> {
    match root {
        Some(root) => if path::is_within(place, root@) {
            path::spelled(path::components(place).skip(path::components(root@).len() as int))
        } else {
            place
        },
        None => place,
    }
}

/// Whether a row shows result `i`.
pub open spec fn shows_result(row: ResultRow, bar: FindBar, root: Option<String>, i: int) -> bool {
    let hit = bar.results@[i];
    &&& row.place@ == short_place(hit.path@, root) + ":"@ + text::decimal_digits(
        (hit.line + 1) as nat,
    )
    &&& row.snippet@ == text::trimmed(hit.snippet@)
    &&& row.selected == (bar.selected == i)
}

/// How many results are drawn.
pub open spec fn drawn_results(bar: FindBar) -> int {
    let left = if bar.result_scroll < bar.results@.len() {
        bar.results@.len() - bar.result_scroll
    } else {
        0
    };
    if left < RESULT_ROWS {
        left
    } else {
        RESULT_ROWS as int
    }
}

/// Where a result is.
fn result_place(hit: &ProjectHit, root: &Option<String>) -> (place: String)
    requires
        hit.line < usize::MAX,
    ensures
        place@ == short_place(hit.path@, *root) + ":"@ + text::decimal_digits(
            (hit.line + 1) as nat,
        ),
{
    let short = match root {
        Some(root) => match strip_prefix(hit.path.as_str(), root.as_str()) {
            Some(rest) => rest,
            None => hit.path.clone(),
        },
        None => hit.path.clone(),
    };
    joined3(short.as_str(), ":", decimal(hit.line + 1).as_str())
}

impl EditorView {
    /// The results of a project search that are drawn: where each is, then
    /// what it says.
    pub fn result_rows(&self) -> (rows: Vec<ResultRow>)
        requires
            self.state.wf(),
            self.state.fields.find is Some,
            forall|i: int|
                0 <= i < self.state.fields.find->0.results@.len() ==> (
                #[trigger] self.state.fields.find->0.results@[i]).line < usize::MAX,
        ensures
            ({
                let bar = self.state.fields.find->0;
                let root = self.state.side.tree.root;
                if bar.project {
                    &&& rows@.len() == drawn_results(bar)
                    &&& forall|i: int|
                        0 <= i < rows@.len() ==> shows_result(
                            #[trigger] rows@[i],
                            bar,
                            root,
                            bar.result_scroll + i,
                        )
                } else {
                    rows@.len() == 0
                }
            }),
    {
        let mut rows: Vec<ResultRow> = Vec::new();
        let bar = match &self.state.fields.find {
            Some(bar) => bar,
            None => {
                return rows;
            },
        };
        if !bar.project {
            return rows;
        }
        let first = bar.result_scroll;
        let left = if first < bar.results.len() {
            bar.results.len() - first
        } else {
            0
        };
        let count = if left < RESULT_ROWS {
            left
        } else {
            RESULT_ROWS
        };
        let total = bar.results.len();
        let mut i: usize = 0;
        while i < count
            invariant
                i <= count,
                total == bar.results@.len(),
                rows@.len() == i,
                *bar == self.state.fields.find->0,
                first == bar.result_scroll,
                count > 0 ==> first + count <= total,
                forall|i: int|
                    0 <= i < bar.results@.len() ==> (#[trigger] bar.results@[i]).line < usize::MAX,
                forall|j: int|
                    0 <= j < i ==> shows_result(
                        #[trigger] rows@[j],
                        *bar,
                        self.state.side.tree.root,
                        first + j,
                    ),
            decreases count - i,
        {
            let at = first + i;
            let hit = &bar.results[at];
            assert(bar.results@[at as int].line < usize::MAX);
            rows.push(
                ResultRow {
                    place: result_place(hit, &self.state.side.tree.root),
                    snippet: trim(hit.snippet.as_str()),
                    selected: bar.selected == at,
                },
            );
            i += 1;
        }
        rows
    }
}

/// The field that takes over the status line: its label and its text.
pub open spec fn prompt_of(s: State) -> Option<(Seq<char>, Field)> {
    match s.fields.goto_line {
        Some(field) => Some(("Go to line: "@, field)),
        None => match s.fields.rename {
            Some(rename) => Some(("Rename to: "@, rename.field)),
            None => None,
        },
    }
}

impl EditorView {
    /// The field that takes over the status line. A line number goes where
    /// line numbers already live.
    pub fn prompt(&self) -> (prompt: Option<(&'static str, &Field)>)
        ensures
            match (prompt, prompt_of(self.state)) {
                (Some((label, field)), Some((text, of))) => label@ == text && *field == of,
                (None, None) => true,
                _ => false,
            },
    {
        match &self.state.fields.goto_line {
            Some(field) => Some(("Go to line: ", field)),
            None => match &self.state.fields.rename {
                Some(rename) => Some(("Rename to: ", &rename.field)),
                None => None,
            },
        }
    }

    /// What the palette says while it is empty, and what Return does in it.
    pub fn palette_labels(&self) -> (labels: Option<(&'static str, &'static str)>)
        ensures
            match self.state.fields.palette {
                None => labels is None,
                Some(palette) => {
                    let branches = self.state.fields.branch_list is Some;
                    &&& labels matches Some((placeholder, action))
                    &&& placeholder@ == (if branches {
                        "Branch name"@
                    } else {
                        "Find a file  \u{b7}  > commands  \u{b7}  @ symbols  \u{b7}  # in project"@
                    })
                    &&& action@ == (if branches {
                        "Switch"@
                    } else if palette::mode_of(palette.query.text@, false) is Commands {
                        "Run"@
                    } else {
                        "Open"@
                    })
                },
            },
    {
        let query = match &self.state.fields.palette {
            Some(palette) => palette.query.text.as_str(),
            None => {
                return None;
            },
        };
        if self.state.fields.branch_list.is_some() {
            return Some(("Branch name", "Switch"));
        }
        let action = match palette_mode(query, false) {
            PaletteMode::Commands => "Run",
            _ => "Open",
        };
        Some(
            (
                "Find a file  \u{b7}  > commands  \u{b7}  @ symbols  \u{b7}  # in project",
                action,
            ),
        )
    }

    /// How the rendered view is left or reached, in the row of the open file.
    pub fn preview_hint(&self) -> (label: &'static str)
        ensures
            label@ == (if self.state.pane.preview is Some {
                "\u{2318}E  Edit"@
            } else {
                "\u{2318}E  Preview"@
            }),
    {
        if self.state.pane.preview.is_some() {
            "\u{2318}E  Edit"
        } else {
            "\u{2318}E  Preview"
        }
    }

    /// The code block that says it was copied.
    pub fn copied_block(&self, now: u64) -> (line: Option<usize>)
        ensures
            line == (match self.state.status.copied {
                Some(copied) => if now - copied.at < COPIED_TIME {
                    Some(copied.line)
                } else {
                    None
                },
                None => None,
            }),
    {
        match self.state.status.copied {
            Some(copied) => if now < copied.at || now - copied.at < COPIED_TIME {
                Some(copied.line)
            } else {
                None
            },
            None => None,
        }
    }

    /// Where the caret of the rendered document is drawn: it is the document's
    /// own, while the rendering follows it.
    pub fn rendered_caret(&self) -> (at: Option<usize>)
        requires
            self.state.wf(),
        ensures
            ({
                let front = self.state.pane.docs.front();
                at == (match self.state.pane.live_line {
                    Some(place) => if place.buffer == front.id {
                        Some(front.cursor)
                    } else {
                        None
                    },
                    None => None,
                })
            }),
    {
        let front = self.state.pane.docs.active();
        match self.state.pane.live_line {
            Some(place) => if place.buffer == front.id {
                Some(front.cursor)
            } else {
                None
            },
            None => None,
        }
    }
}

/// What is left of the picked suggestion after what has been typed of it: the
/// ghost drawn at the caret. Only at the end of a line: drawn over text that
/// follows the caret, it would read as if it were there.
pub open spec fn ghost_of(popup: CompletionPopup, b: Buffer) -> Option<Seq<char>> {
    let from = if popup.anchor < b.cursor {
        popup.anchor
    } else {
        b.cursor
    };
    let prefix = text::readable(b.text@.subrange(from as int, b.cursor as int));
    let rest = text::readable(
        b.text@.subrange(b.cursor as int, buffer::line_end_at(b.text@, b.cursor as int)),
    );
    let insert = popup.shown@[popup.selected as int].insert@;
    if text::trimmed(rest).len() == 0 && prefix.is_prefix_of(insert) {
        Some(insert.skip(prefix.len() as int))
    } else {
        None
    }
}

impl EditorView {
    /// The ghost of the picked suggestion, if there is one.
    pub fn completion_ghost(&self) -> (ghost_text: Option<String>)
        requires
            self.state.wf(),
        ensures
            match self.state.hints.completion {
                Some(popup) => if popup.shown@.len() > 0 {
                    match (ghost_text, ghost_of(popup, self.state.pane.docs.front())) {
                        (Some(a), Some(b)) => a@ == b,
                        (None, None) => true,
                        _ => false,
                    }
                } else {
                    ghost_text is None
                },
                None => ghost_text is None,
            },
    {
        let popup = match &self.state.hints.completion {
            Some(popup) => popup,
            None => {
                return None;
            },
        };
        if popup.shown.len() == 0 {
            return None;
        }
        let b = self.state.pane.docs.active();
        let from = if popup.anchor < b.cursor {
            popup.anchor
        } else {
            b.cursor
        };
        let end = line_end(&b.text, b.cursor);
        let prefix = read(&slice_of(&b.text, from, b.cursor));
        let rest = read(&slice_of(&b.text, b.cursor, end));
        if chars_of(trim(rest.as_str()).as_str()).len() > 0 {
            return None;
        }
        let insert = chars_of(popup.shown[popup.selected].insert.as_str());
        let typed = chars_of(prefix.as_str());
        if !starts_with(popup.shown[popup.selected].insert.as_str(), prefix.as_str()) {
            return None;
        }
        assert(insert@.subrange(typed@.len() as int, insert@.len() as int) =~= insert@.skip(
            typed@.len() as int,
        ));
        Some(text_of_chars(&insert, typed.len(), insert.len()))
    }
}

/// Taking the ghost completes the suggestion: what was typed and the ghost are
/// the whole of it.
pub proof fn the_ghost_completes_the_word(popup: CompletionPopup, b: Buffer)
    requires
        ghost_of(popup, b) is Some,
    ensures
        ({
            let from = if popup.anchor < b.cursor {
                popup.anchor
            } else {
                b.cursor
            };
            let prefix = text::readable(b.text@.subrange(from as int, b.cursor as int));
            prefix + ghost_of(popup, b)->0 == popup.shown@[popup.selected as int].insert@
        }),
{
    let from = if popup.anchor < b.cursor {
        popup.anchor
    } else {
        b.cursor
    };
    let prefix = text::readable(b.text@.subrange(from as int, b.cursor as int));
    let insert = popup.shown@[popup.selected as int].insert@;
    assert(prefix + insert.skip(prefix.len() as int) =~= insert);
}

/// The parts of a reply with `headers` headers, as they are called.
pub fn segment_labels(headers: usize) -> (labels: Vec<String>)
    ensures
        path::texts(labels@) == seq![
            "Body"@,
            "Headers "@ + text::decimal_digits(headers as nat),
            "Request"@,
        ],
{
    let mut labels: Vec<String> = Vec::new();
    labels.push("Body".to_owned());
    labels.push(joined("Headers ", decimal(headers).as_str()));
    labels.push("Request".to_owned());
    assert(path::texts(labels@) =~= seq![
        "Body"@,
        "Headers "@ + text::decimal_digits(headers as nat),
        "Request"@,
    ]);
    labels
}

} // verus!
