//! The find bar: finding and replacing in the document and in the project.

use crate::buffer::{self, Edit, Field};
use crate::keys::{self, EditOp, KeyEvent};
use crate::state::{EditorView, Effect, Fields, Project, State, Target, Task};
use crate::text::{self, joined, lower, quoted, read, single_line};
use vstd::prelude::*;
use vstd::string::*;

verus! {

/// How a query is read.
#[derive(Clone, Copy, PartialEq, Eq, Structural, Debug)]
pub struct SearchOptions {
    pub case_sensitive: bool,
    pub whole_word: bool,
    pub regex: bool,
}

/// A match somewhere in the project.
pub struct ProjectHit {
    pub path: String,
    pub start: usize,
    pub end: usize,
    pub line: usize,
    pub snippet: String,
}

/// The find bar's state: two fields and which one has focus.
pub struct FindBar {
    pub query: Field,
    pub replacement: Field,
    /// Tab moves between them.
    pub replacing: bool,
    pub options: SearchOptions,
    pub project: bool,
    pub results: Vec<ProjectHit>,
    pub selected: usize,
    pub result_scroll: usize,
    pub searching: bool,
}

/// How many results the list shows at a time.
pub const RESULT_ROWS: usize = 8;

/// Where a project search stops.
pub const SEARCH_LIMIT: usize = 500;

/// What a key in one of the fields does to it.
#[derive(Clone, Copy, PartialEq, Eq, Structural, Debug)]
pub enum FieldKey {
    Edit(EditOp),
    Copy,
    Cut,
    Paste,
    /// Text, for the input system to work out.
    Text,
    /// Not the field's business.
    Ignored,
}

/// Whether an edit can change the text.
pub open spec fn changes_text(op: EditOp) -> bool {
    match op {
        EditOp::DeleteToLineStart
        | EditOp::DeleteToLineEnd
        | EditOp::DeleteWordBackward
        | EditOp::DeleteWordForward
        | EditOp::DeleteForward
        | EditOp::Backspace
        | EditOp::Undo
        | EditOp::Redo => true,
        _ => false,
    }
}

/// The familiar shortcuts, in a find field.
pub open spec fn field_command(event: KeyEvent) -> FieldKey {
    let code = keys::plain_code(event.code);
    let letter = match event.bare {
        Some(c) => Some(crate::text::ascii_lower(c)),
        None => None::<char>,
    };
    if code == keys::DELETE {
        FieldKey::Edit(EditOp::DeleteToLineStart)
    } else if code == keys::FORWARD_DELETE {
        FieldKey::Edit(EditOp::DeleteToLineEnd)
    } else if code == keys::LEFT {
        FieldKey::Edit(EditOp::LineStart(keys::motion_with(event.flags)))
    } else if code == keys::RIGHT {
        FieldKey::Edit(EditOp::LineEnd(keys::motion_with(event.flags)))
    } else if letter == Some('a') {
        FieldKey::Edit(EditOp::SelectAll)
    } else if letter == Some('c') {
        FieldKey::Copy
    } else if letter == Some('x') {
        FieldKey::Cut
    } else if letter == Some('v') {
        FieldKey::Paste
    } else if letter == Some('z') {
        FieldKey::Edit(
            if event.flags.shift {
                EditOp::Redo
            } else {
                EditOp::Undo
            },
        )
    } else {
        FieldKey::Ignored
    }
}

/// A key without Command in a find field.
pub open spec fn field_key(event: KeyEvent) -> FieldKey {
    let code = keys::plain_code(event.code);
    let motion = keys::motion_with(event.flags);
    let option = event.flags.option;
    if code == keys::LEFT {
        FieldKey::Edit(
            if option {
                EditOp::WordLeft(motion)
            } else {
                EditOp::Left(motion)
            },
        )
    } else if code == keys::RIGHT {
        FieldKey::Edit(
            if option {
                EditOp::WordRight(motion)
            } else {
                EditOp::Right(motion)
            },
        )
    } else if code == keys::HOME || code == keys::UP {
        FieldKey::Edit(EditOp::LineStart(motion))
    } else if code == keys::END || code == keys::DOWN {
        FieldKey::Edit(EditOp::LineEnd(motion))
    } else if code == keys::DELETE {
        FieldKey::Edit(
            if option {
                EditOp::DeleteWordBackward
            } else {
                EditOp::Backspace
            },
        )
    } else if code == keys::FORWARD_DELETE {
        FieldKey::Edit(
            if option {
                EditOp::DeleteWordForward
            } else {
                EditOp::DeleteForward
            },
        )
    } else {
        FieldKey::Text
    }
}

/// The first match that starts at `at` or after it.
pub open spec fn first_from(matches: Seq<Edit>, at: int) -> Option<int>
    decreases matches.len(),
{
    if matches.len() == 0 {
        None
    } else {
        match first_from(matches.drop_last(), at) {
            Some(i) => Some(i),
            None => if matches.last().start >= at {
                Some(matches.len() - 1)
            } else {
                None
            },
        }
    }
}

/// The last match that starts before `before`.
pub open spec fn last_before(matches: Seq<Edit>, before: int) -> Option<int>
    decreases matches.len(),
{
    if matches.len() == 0 {
        None
    } else if matches.last().start < before {
        Some(matches.len() - 1)
    } else {
        last_before(matches.drop_last(), before)
    }
}

/// The match to go to from `at`: the next, or the first when none follows.
pub open spec fn next_match(matches: Seq<Edit>, at: int) -> Option<int> {
    match first_from(matches, at) {
        Some(i) => Some(i),
        None => if matches.len() > 0 {
            Some(0)
        } else {
            None
        },
    }
}

/// The match before `before`, or the last when none precedes.
pub open spec fn previous_match(matches: Seq<Edit>, before: int) -> Option<int> {
    match last_before(matches, before) {
        Some(i) => Some(i),
        None => if matches.len() > 0 {
            Some(matches.len() - 1)
        } else {
            None
        },
    }
}

/// What [`first_from`] finds is the first: no match before it starts there.
pub proof fn first_from_is_first(matches: Seq<Edit>, at: int)
    ensures
        match first_from(matches, at) {
            Some(i) => 0 <= i < matches.len() && matches[i].start >= at && forall|j: int|
                0 <= j < i ==> (#[trigger] matches[j]).start < at,
            None => forall|j: int| 0 <= j < matches.len() ==> (#[trigger] matches[j]).start < at,
        },
    decreases matches.len(),
{
    if matches.len() > 0 {
        let head = matches.drop_last();
        first_from_is_first(head, at);
        assert(forall|j: int| 0 <= j < head.len() ==> head[j] == matches[j]);
    }
}

/// What [`last_before`] finds is the last: no match after it starts before
/// there.
pub proof fn last_before_is_last(matches: Seq<Edit>, before: int)
    ensures
        match last_before(matches, before) {
            Some(i) => 0 <= i < matches.len() && matches[i].start < before && forall|j: int|
                i < j < matches.len() ==> (#[trigger] matches[j]).start >= before,
            None => forall|j: int|
                0 <= j < matches.len() ==> (#[trigger] matches[j]).start >= before,
        },
    decreases matches.len(),
{
    if matches.len() > 0 {
        let head = matches.drop_last();
        last_before_is_last(head, before);
        assert(forall|j: int| 0 <= j < head.len() ==> head[j] == matches[j]);
    }
}

/// The next match is the first that starts at `at` or after it, whichever
/// starts there; when none does, it is the first of all.
pub proof fn the_next_match_is_the_nearest(matches: Seq<Edit>, at: int, i: int)
    requires
        0 <= i < matches.len(),
    ensures
        matches[i].start >= at && (forall|j: int|
            0 <= j < i ==> (#[trigger] matches[j]).start < at) ==> next_match(matches, at) == Some(
            i,
        ),
        (forall|j: int| 0 <= j < matches.len() ==> (#[trigger] matches[j]).start < at)
            ==> next_match(matches, at) == Some(0int),
{
    first_from_is_first(matches, at);
    if let Some(k) = first_from(matches, at) {
        if k < i {
            assert(matches[k].start >= at);
        }
    }
}

/// The previous match is the last that starts before `before`, however many
/// do; when none does, it is the last of all.
pub proof fn the_previous_match_is_the_nearest(matches: Seq<Edit>, before: int, i: int)
    requires
        0 <= i < matches.len(),
    ensures
        matches[i].start < before && (forall|j: int|
            i < j < matches.len() ==> (#[trigger] matches[j]).start >= before) ==> previous_match(
            matches,
            before,
        ) == Some(i),
        (forall|j: int| 0 <= j < matches.len() ==> (#[trigger] matches[j]).start >= before)
            ==> previous_match(matches, before) == Some(matches.len() - 1),
{
    last_before_is_last(matches, before);
    if let Some(k) = last_before(matches, before) {
        if i < k {
            assert(matches[k].start < before);
        }
    }
}

/// [`next_match`], worked out.
pub fn find_next(matches: &Vec<Edit>, at: usize) -> (found: Option<usize>)
    ensures
        match (found, next_match(matches@, at as int)) {
            (Some(i), Some(j)) => i == j && i < matches@.len(),
            (None, None) => true,
            _ => false,
        },
        match found {
            Some(i) => i < matches@.len() && if matches@[i as int].start >= at {
                forall|j: int| 0 <= j < i ==> (#[trigger] matches@[j]).start < at
            } else {
                i == 0 && forall|j: int|
                    0 <= j < matches@.len() ==> (#[trigger] matches@[j]).start < at
            },
            None => matches@.len() == 0,
        },
{
    let mut i: usize = 0;
    while i < matches.len()
        invariant
            i <= matches@.len(),
            forall|j: int| 0 <= j < i ==> (#[trigger] matches@[j]).start < at,
        decreases matches@.len() - i,
    {
        if matches[i].start >= at {
            proof {
                first_from_is_first(matches@, at as int);
            }
            return Some(i);
        }
        i += 1;
    }
    proof {
        first_from_is_first(matches@, at as int);
    }
    if matches.len() > 0 {
        Some(0)
    } else {
        None
    }
}

/// [`previous_match`], worked out.
pub fn find_previous(matches: &Vec<Edit>, before: usize) -> (found: Option<usize>)
    ensures
        match (found, previous_match(matches@, before as int)) {
            (Some(i), Some(j)) => i == j && i < matches@.len(),
            (None, None) => true,
            _ => false,
        },
        match found {
            Some(i) => i < matches@.len() && if matches@[i as int].start < before {
                forall|j: int| i < j < matches@.len() ==> (#[trigger] matches@[j]).start >= before
            } else {
                i == matches@.len() - 1 && forall|j: int|
                    0 <= j < matches@.len() ==> (#[trigger] matches@[j]).start >= before
            },
            None => matches@.len() == 0,
        },
{
    proof {
        last_before_is_last(matches@, before as int);
    }
    let mut i: usize = matches.len();
    assert(matches@.take(i as int) =~= matches@);
    while i > 0
        invariant
            i <= matches@.len(),
            last_before(matches@.take(i as int), before as int) == last_before(
                matches@,
                before as int,
            ),
            forall|j: int| i <= j < matches@.len() ==> (#[trigger] matches@[j]).start >= before,
        decreases i,
    {
        if matches[i - 1].start < before {
            return Some(i - 1);
        }
        assert(matches@.take(i as int).drop_last() =~= matches@.take(i - 1));
        i -= 1;
    }
    assert(matches@.take(0) =~= Seq::empty());
    if matches.len() > 0 {
        Some(matches.len() - 1)
    } else {
        None
    }
}

impl FindBar {
    /// The selected row is one of the results, and the list is scrolled no
    /// further than it.
    pub open spec fn wf(&self) -> bool {
        self.results@.len() > 0 ==> self.selected < self.results@.len() && self.result_scroll
            <= self.selected
    }

    /// Which of the two fields is being edited.
    pub open spec fn field_target(&self) -> Target {
        if self.replacing {
            Target::FindReplacement
        } else {
            Target::FindQuery
        }
    }

    /// Whether something is selected in the field being edited.
    pub open spec fn field_selected(&self) -> bool {
        if self.replacing {
            self.replacement.has_selection()
        } else {
            self.query.has_selection()
        }
    }

    /// The bar with the next (or previous) result selected, as far as there
    /// are results, and the list scrolled to show it.
    pub open spec fn stepped(self, forward: bool) -> FindBar {
        if self.results@.len() == 0 {
            self
        } else {
            let selected = if forward {
                if self.selected + 1 < self.results@.len() {
                    self.selected + 1
                } else {
                    self.results@.len() - 1
                }
            } else if self.selected > 0 {
                self.selected - 1
            } else {
                0
            };
            FindBar {
                selected: selected as usize,
                result_scroll: (if selected < self.result_scroll {
                    selected
                } else if selected >= self.result_scroll + RESULT_ROWS {
                    selected - (RESULT_ROWS - 1)
                } else {
                    self.result_scroll as int
                }) as usize,
                ..self
            }
        }
    }

    /// See [`FindBar::stepped`].
    pub fn step(&mut self, forward: bool)
        requires
            old(self).wf(),
        ensures
            *final(self) == old(self).stepped(forward),
            final(self).wf(),
    {
        if self.results.len() == 0 {
            return;
        }
        if forward {
            if self.selected + 1 < self.results.len() {
                self.selected += 1;
            } else {
                self.selected = self.results.len() - 1;
            }
        } else if self.selected > 0 {
            self.selected -= 1;
        }
        if self.selected < self.result_scroll {
            self.result_scroll = self.selected;
        } else if self.selected - self.result_scroll >= RESULT_ROWS {
            self.result_scroll = self.selected - (RESULT_ROWS - 1);
        }
    }
}

/// After stepping, the selected result is among the rows shown.
pub proof fn the_selected_result_is_shown(bar: FindBar, forward: bool)
    requires
        bar.wf(),
        bar.results@.len() > 0,
    ensures
        bar.stepped(forward).result_scroll <= bar.stepped(forward).selected
            < bar.stepped(forward).result_scroll + RESULT_ROWS,
        bar.stepped(forward).selected < bar.results@.len(),
{
    let n = bar.results.len();
    assert(bar.results@.len() == n);
}

/// See [`field_command`].
fn field_command_of(event: &KeyEvent) -> (k: FieldKey)
    ensures
        k == field_command(*event),
{
    let code = keys::code_of(event);
    let letter: Option<char> = match event.bare {
        Some(c) => Some(lower(c)),
        None => None,
    };
    let motion = keys::motion_for(event.flags);
    if code == keys::DELETE {
        FieldKey::Edit(EditOp::DeleteToLineStart)
    } else if code == keys::FORWARD_DELETE {
        FieldKey::Edit(EditOp::DeleteToLineEnd)
    } else if code == keys::LEFT {
        FieldKey::Edit(EditOp::LineStart(motion))
    } else if code == keys::RIGHT {
        FieldKey::Edit(EditOp::LineEnd(motion))
    } else {
        match letter {
            Some('a') => FieldKey::Edit(EditOp::SelectAll),
            Some('c') => FieldKey::Copy,
            Some('x') => FieldKey::Cut,
            Some('v') => FieldKey::Paste,
            Some('z') => {
                if event.flags.shift {
                    FieldKey::Edit(EditOp::Redo)
                } else {
                    FieldKey::Edit(EditOp::Undo)
                }
            },
            _ => FieldKey::Ignored,
        }
    }
}

/// Whether a shortcut is one of the fields' own.
pub fn is_field_command(event: &KeyEvent) -> (r: bool)
    ensures
        r == !(field_command(*event) is Ignored),
{
    match field_command_of(event) {
        FieldKey::Ignored => false,
        _ => true,
    }
}

/// See [`field_key`].
fn field_key_of(event: &KeyEvent) -> (k: FieldKey)
    ensures
        k == field_key(*event),
{
    let code = keys::code_of(event);
    let motion = keys::motion_for(event.flags);
    let option = event.flags.option;
    if code == keys::LEFT {
        if option {
            FieldKey::Edit(EditOp::WordLeft(motion))
        } else {
            FieldKey::Edit(EditOp::Left(motion))
        }
    } else if code == keys::RIGHT {
        if option {
            FieldKey::Edit(EditOp::WordRight(motion))
        } else {
            FieldKey::Edit(EditOp::Right(motion))
        }
    } else if code == keys::HOME || code == keys::UP {
        FieldKey::Edit(EditOp::LineStart(motion))
    } else if code == keys::END || code == keys::DOWN {
        FieldKey::Edit(EditOp::LineEnd(motion))
    } else if code == keys::DELETE {
        if option {
            FieldKey::Edit(EditOp::DeleteWordBackward)
        } else {
            FieldKey::Edit(EditOp::Backspace)
        }
    } else if code == keys::FORWARD_DELETE {
        if option {
            FieldKey::Edit(EditOp::DeleteWordForward)
        } else {
            FieldKey::Edit(EditOp::DeleteForward)
        }
    } else {
        FieldKey::Text
    }
}

impl State {
    /// The state with another find bar.
    pub open spec fn with_find(self, find: Option<FindBar>) -> State {
        State { fields: Fields { find, ..self.fields }, ..self }
    }

    /// The state with no project search under way.
    pub open spec fn not_searching(self) -> State {
        State { project: Project { searching: false, ..self.project }, ..self }
    }

    /// What stops a project search, when one is under way.
    pub open spec fn cancelling(&self) -> Seq<Effect> {
        if self.project.searching {
            seq![Effect::CancelProjectSearch]
        } else {
            Seq::empty()
        }
    }
}

/// What Return in the find bar leads to.
pub open spec fn find_return(bar: FindBar, shift: bool) -> Task {
    if bar.project {
        if bar.results@.len() > 0 {
            Task::OpenResult(bar.selected)
        } else {
            Task::SearchProject
        }
    } else if bar.replacing {
        Task::ReplaceOne
    } else {
        Task::FindStep(!shift)
    }
}

/// What a shortcut in a find field asks for.
pub open spec fn find_command_work(bar: FindBar, key: FieldKey) -> Seq<Effect> {
    let target = bar.field_target();
    let refresh = if bar.replacing {
        Seq::<Effect>::empty()
    } else {
        seq![Effect::Run(Task::RefreshFind)]
    };
    match key {
        FieldKey::Edit(op) => seq![Effect::Edit(target, op)] + (if changes_text(op) {
            refresh
        } else {
            Seq::empty()
        }),
        FieldKey::Copy => if bar.field_selected() {
            seq![Effect::CopyFrom(target)]
        } else {
            Seq::empty()
        },
        FieldKey::Cut => if bar.field_selected() {
            seq![Effect::CutFrom(target)] + refresh
        } else {
            Seq::empty()
        },
        FieldKey::Paste => seq![Effect::PasteInFind],
        _ => Seq::empty(),
    }
}

/// See [`changes_text`].
fn op_changes_text(op: EditOp) -> (r: bool)
    ensures
        r == changes_text(op),
{
    match op {
        EditOp::DeleteToLineStart
        | EditOp::DeleteToLineEnd
        | EditOp::DeleteWordBackward
        | EditOp::DeleteWordForward
        | EditOp::DeleteForward
        | EditOp::Backspace
        | EditOp::Undo
        | EditOp::Redo => true,
        _ => false,
    }
}

impl EditorView {
    /// This is `before` after a key in the find bar.
    pub open spec fn handles_find_key(
        &self,
        before: EditorView,
        event: KeyEvent,
        handled: bool,
        now: u64,
    ) -> bool {
        let bar = before.state.fields.find->0;
        let code = keys::plain_code(event.code);
        if before.state.fields.find is None {
            self.handles_key_without_bar(before, event, handled, now)
        } else if (code == keys::UP || code == keys::DOWN) && bar.project && bar.results@.len()
            > 0 {
            &&& handled
            &&& self.shows(
                before,
                before.state.with_find(Some(bar.stepped(code == keys::DOWN))),
                Seq::empty(),
                now,
            )
        } else if code == keys::ESCAPE {
            handled && self.closes_find(before, now)
        } else if code == keys::TAB {
            &&& handled
            &&& self.shows(
                before,
                before.state.with_find(Some(FindBar { replacing: !bar.replacing, ..bar })),
                Seq::empty(),
                now,
            )
        } else if code == keys::RETURN {
            &&& handled
            &&& self.becomes(
                before,
                before.state,
                seq![Effect::Run(find_return(bar, event.flags.shift))],
            )
        } else if event.flags.command {
            let key = field_command(event);
            if key is Ignored {
                !handled && *self == before
            } else {
                handled && self.shows(before, before.state, find_command_work(bar, key), now)
            }
        } else {
            &&& handled
            &&& match field_key(event) {
                FieldKey::Edit(op) => if bar.replacing {
                    self.shows(
                        before,
                        before.state,
                        seq![Effect::Edit(bar.field_target(), op)],
                        now,
                    )
                } else {
                    self.becomes(
                        before,
                        before.state,
                        seq![
                            Effect::Edit(bar.field_target(), op),
                            Effect::Run(Task::RefreshFind),
                        ],
                    )
                },
                _ => self.becomes(before, before.state, seq![Effect::Interpret]),
            }
        }
    }

    /// This is `before` after a key meant for a find bar that is not open.
    pub open spec fn handles_key_without_bar(
        &self,
        before: EditorView,
        event: KeyEvent,
        handled: bool,
        now: u64,
    ) -> bool {
        let code = keys::plain_code(event.code);
        if code == keys::ESCAPE {
            handled && self.closes_find(before, now)
        } else if code == keys::TAB {
            handled && self.shows(before, before.state, Seq::empty(), now)
        } else if code == keys::RETURN {
            &&& handled
            &&& self.becomes(
                before,
                before.state,
                seq![Effect::Run(Task::FindStep(!event.flags.shift))],
            )
        } else {
            !handled && *self == before
        }
    }

    /// Keys while the find bar has focus. Returns whether it consumed them.
    ///
    /// The find fields are real editors. The familiar shortcuts are handled
    /// here as well as through menu actions, because not every key equivalent
    /// goes through the menu on every keyboard layout. Results that came in
    /// before the key are there already; see
    /// [`EditorView::poll_project_search`].
    pub fn handle_find_key(&mut self, event: &KeyEvent, now: u64) -> (handled: bool)
        requires
            old(self).state.wf(),
        ensures
            final(self).state.wf(),
            final(self).handles_find_key(*old(self), *event, handled, now),
    {
        let code = keys::code_of(event);
        let (project, count, selected, replacing) = match &self.state.fields.find {
            Some(bar) => (bar.project, bar.results.len(), bar.selected, bar.replacing),
            None => (false, 0, 0, false),
        };
        if (code == keys::UP || code == keys::DOWN) && project && count > 0 {
            if let Some(bar) = &mut self.state.fields.find {
                bar.step(code == keys::DOWN);
            }
            self.show(now);
            return true;
        }
        if code == keys::ESCAPE {
            self.close_find(now);
            return true;
        }
        if code == keys::TAB {
            // Tab crosses between Find and Replace rather than inserting.
            if let Some(bar) = &mut self.state.fields.find {
                bar.replacing = !bar.replacing;
            }
            self.show(now);
            return true;
        }
        if code == keys::RETURN {
            let task = if project {
                if count > 0 {
                    Task::OpenResult(selected)
                } else {
                    Task::SearchProject
                }
            } else if replacing {
                Task::ReplaceOne
            } else {
                Task::FindStep(!event.flags.shift)
            };
            self.ask(Effect::Run(task));
            return true;
        }
        if self.state.fields.find.is_none() {
            return false;
        }
        if event.flags.command {
            return self.find_command_key(event, now);
        }
        self.find_text_key(event, now);
        true
    }

    /// A shortcut in a find field. Returns whether it is one of theirs.
    fn find_command_key(&mut self, event: &KeyEvent, now: u64) -> (handled: bool)
        requires
            old(self).state.fields.find is Some,
        ensures
            handled == !(field_command(*event) is Ignored),
            handled ==> final(self).shows(
                *old(self),
                old(self).state,
                find_command_work(old(self).state.fields.find->0, field_command(*event)),
                now,
            ),
            !handled ==> *final(self) == *old(self),
    {
        let ghost bar = old(self).state.fields.find->0;
        let (replacing, marked) = match &self.state.fields.find {
            Some(bar) => (
                bar.replacing,
                if bar.replacing {
                    bar.replacement.cursor != bar.replacement.anchor
                } else {
                    bar.query.cursor != bar.query.anchor
                },
            ),
            None => (false, false),
        };
        let target = if replacing {
            Target::FindReplacement
        } else {
            Target::FindQuery
        };
        let key = field_command_of(event);
        match key {
            FieldKey::Ignored | FieldKey::Text => {
                return false;
            },
            FieldKey::Edit(op) => {
                self.ask(Effect::Edit(target, op));
                if op_changes_text(op) && !replacing {
                    self.ask(Effect::Run(Task::RefreshFind));
                }
            },
            FieldKey::Copy => {
                if marked {
                    self.ask(Effect::CopyFrom(target));
                }
            },
            FieldKey::Cut => {
                if marked {
                    self.ask(Effect::CutFrom(target));
                    if !replacing {
                        self.ask(Effect::Run(Task::RefreshFind));
                    }
                }
            },
            FieldKey::Paste => {
                self.ask(Effect::PasteInFind);
            },
        }
        assert(self.effects@ =~= old(self).effects@ + find_command_work(bar, key));
        self.show(now);
        assert(self.effects@ =~= old(self).effects@ + (find_command_work(bar, key) + old(
            self,
        ).pumping(now)));
        true
    }

    /// This is `before` with `put` pasted into the find field being edited. A
    /// different query is searched for again.
    pub open spec fn pastes_in_find(&self, before: EditorView, put: String, now: u64) -> bool {
        let bar = before.state.fields.find->0;
        self.shows(
            before,
            before.state,
            seq![Effect::Insert(bar.field_target(), put)] + (if bar.replacing {
                Seq::empty()
            } else {
                seq![Effect::Run(Task::RefreshFind)]
            }),
            now,
        )
    }

    /// Command-V in the find bar: the first line of the clipboard's `text`, if
    /// it has some, goes into the field being edited.
    pub fn paste_in_find(&mut self, text: Option<String>, now: u64)
        ensures
            old(self).state.wf() ==> final(self).state.wf(),
            match (old(self).state.fields.find, text) {
                (Some(bar), Some(text)) => exists|put: String|
                    {
                        &&& put@ == text::typed(text::first_line(text@))
                        &&& #[trigger] final(self).pastes_in_find(*old(self), put, now)
                    },
                _ => *final(self) == *old(self),
            },
    {
        let text = match text {
            Some(text) => text,
            None => {
                return;
            },
        };
        let replacing = match &self.state.fields.find {
            Some(bar) => bar.replacing,
            None => {
                return;
            },
        };
        let target = if replacing {
            Target::FindReplacement
        } else {
            Target::FindQuery
        };
        let put = single_line(text.as_str());
        let ghost named = put;
        self.effects.push(Effect::Insert(target, put));
        if !replacing {
            self.effects.push(Effect::Run(Task::RefreshFind));
        }
        let ghost done = seq![Effect::Insert(target, named)] + (if replacing {
            Seq::empty()
        } else {
            seq![Effect::Run(Task::RefreshFind)]
        });
        assert(self.effects@ =~= old(self).effects@ + done);
        self.show(now);
        assert(self.effects@ =~= old(self).effects@ + (done + old(self).pumping(now)));
        assert(self.pastes_in_find(*old(self), named, now));
    }

    /// A key without Command in a find field.
    fn find_text_key(&mut self, event: &KeyEvent, now: u64)
        requires
            old(self).state.fields.find is Some,
        ensures
            ({
                let before = *old(self);
                let bar = old(self).state.fields.find->0;
                match field_key(*event) {
                    FieldKey::Edit(op) => if bar.replacing {
                        final(self).shows(
                            before,
                            before.state,
                            seq![Effect::Edit(bar.field_target(), op)],
                            now,
                        )
                    } else {
                        final(self).becomes(
                            before,
                            before.state,
                            seq![
                                Effect::Edit(bar.field_target(), op),
                                Effect::Run(Task::RefreshFind),
                            ],
                        )
                    },
                    _ => final(self).becomes(before, before.state, seq![Effect::Interpret]),
                }
            }),
    {
        let replacing = match &self.state.fields.find {
            Some(bar) => bar.replacing,
            None => false,
        };
        let target = if replacing {
            Target::FindReplacement
        } else {
            Target::FindQuery
        };
        match field_key_of(event) {
            FieldKey::Edit(op) => {
                self.ask(Effect::Edit(target, op));
                if replacing {
                    // Editing the replacement does not move the match.
                    self.show(now);
                    assert(self.effects@ =~= old(self).effects@ + (seq![Effect::Edit(target, op)]
                        + old(self).pumping(now)));
                } else {
                    self.ask(Effect::Run(Task::RefreshFind));
                    assert(self.effects@ =~= old(self).effects@ + seq![
                        Effect::Edit(target, op),
                        Effect::Run(Task::RefreshFind),
                    ]);
                }
            },
            _ => {
                self.ask(Effect::Interpret);
            },
        }
    }

    /// This is `before` with the find bar closed.
    pub open spec fn closes_find(&self, before: EditorView, now: u64) -> bool {
        self.shows(
            before,
            before.state.with_find(None).not_searching(),
            before.state.cancelling(),
            now,
        )
    }

    /// Closes the find bar, and stops a project search with it.
    pub fn close_find(&mut self, now: u64)
        ensures
            final(self).closes_find(*old(self), now),
            old(self).state.wf() ==> final(self).state.wf(),
    {
        self.drop_search();
        self.show(now);
        assert(self.effects@ =~= old(self).effects@ + (old(self).state.cancelling() + old(
            self,
        ).pumping(now)));
    }

    /// Drops the find bar, and a project search with it.
    pub(crate) fn drop_search(&mut self)
        ensures
            final(self).becomes(
                *old(self),
                old(self).state.with_find(None).not_searching(),
                old(self).state.cancelling(),
            ),
            old(self).state.wf() ==> final(self).state.wf(),
    {
        if self.state.project.searching {
            self.ask(Effect::CancelProjectSearch);
        } else {
            assert(self.effects@ =~= old(self).effects@ + Seq::<Effect>::empty());
        }
        self.state.project.searching = false;
        self.state.fields.find = None;
    }
}

/// What to find with, when there is anything to find.
pub open spec fn query_of(state: State) -> Seq<char> {
    match state.fields.find {
        Some(bar) => bar.query.text@,
        None => Seq::empty(),
    }
}

impl State {
    /// The state after going to match `at` of `matches`: it is selected.
    pub open spec fn at_match(self, docs: crate::documents::Documents) -> State {
        State { pane: crate::panes::PaneStore { docs, ..self.pane }, ..self }
    }
}

impl EditorView {
    /// This is `before` with the state `state`, having done `done` and gone to
    /// `found` in `matches`.
    pub open spec fn goes_to(
        &self,
        before: EditorView,
        state: State,
        done: Seq<Effect>,
        matches: Seq<Edit>,
        found: Option<int>,
    ) -> bool {
        match found {
            Some(i) => {
                &&& self.state.pane.docs.fronts(
                    state.pane.docs,
                    state.pane.docs.front().selecting(matches[i].start, matches[i].end),
                )
                &&& self.becomes(
                    before,
                    state.at_match(self.state.pane.docs),
                    done.push(Effect::ScrollToCursor),
                )
            },
            None => self.becomes(before, state, done),
        }
    }

    /// This is `before` with the state `state`, having done `done`, and with
    /// `error` from the search in the status line.
    pub open spec fn complains(
        &self,
        before: EditorView,
        state: State,
        done: Seq<Effect>,
        error: Seq<char>,
        now: u64,
    ) -> bool {
        &&& self.state.says("invalid regex: "@ + error, now)
        &&& self.becomes(before, state.saying(self.state.status.message->0), done)
    }

    /// Selects match `at` in the active document and brings it into view.
    fn select_match(&mut self, matches: &Vec<Edit>, at: usize)
        requires
            old(self).state.wf(),
            at < matches@.len(),
        ensures
            final(self).state.wf(),
            final(self).goes_to(
                *old(self),
                old(self).state,
                Seq::empty(),
                matches@,
                Some(at as int),
            ),
    {
        self.state.pane.docs.select_in_front(matches[at].start, matches[at].end);
        self.ask(Effect::ScrollToCursor);
        assert(self.effects@ =~= old(self).effects@ + Seq::<Effect>::empty().push(
            Effect::ScrollToCursor,
        ));
    }

    /// Says that a query is no regular expression.
    fn complain(&mut self, error: &str, now: u64)
        requires
            old(self).state.wf(),
        ensures
            final(self).state.wf(),
            final(self).complains(*old(self), old(self).state, Seq::empty(), error@, now),
    {
        self.say(joined("invalid regex: ", error), now);
        assert(self.effects@ =~= old(self).effects@ + Seq::<Effect>::empty());
    }

    /// Re-runs the search from the top of the current match, so the selection
    /// tracks the query as it changes, however it changed. `found` is what the
    /// search finds in the active document.
    ///
    /// In project mode the results described another query: they go, and so
    /// does a search under way.
    pub fn refresh_find(&mut self, found: &Result<Vec<Edit>, String>, now: u64)
        requires
            old(self).state.wf(),
        ensures
            final(self).state.wf(),
            final(self).refreshes_find(*old(self), *found, now),
    {
        if self.state.project.searching {
            self.ask(Effect::CancelProjectSearch);
        }
        self.state.project.searching = false;
        let ghost done = old(self).state.cancelling();
        assert(self.effects@ =~= old(self).effects@ + done);
        if let Some(bar) = &mut self.state.fields.find {
            if bar.project {
                bar.results.clear();
                bar.searching = false;
                return;
            }
        }
        let empty = match &self.state.fields.find {
            Some(bar) => bar.query.text.as_str().is_empty(),
            None => true,
        };
        if empty {
            return;
        }
        match found {
            Err(error) => {
                self.complain(error.as_str(), now);
                assert(self.effects@ =~= old(self).effects@ + done);
            },
            Ok(matches) => {
                let front = self.state.pane.docs.active();
                let at = if front.anchor < front.cursor {
                    front.anchor
                } else {
                    front.cursor
                };
                match find_next(matches, at) {
                    Some(i) => {
                        self.select_match(matches, i);
                        assert(self.effects@ =~= old(self).effects@ + done.push(
                            Effect::ScrollToCursor,
                        ));
                    },
                    None => {},
                }
            },
        }
    }

    /// This is `before` after [`EditorView::refresh_find`].
    pub open spec fn refreshes_find(
        &self,
        before: EditorView,
        found: Result<Vec<Edit>, String>,
        now: u64,
    ) -> bool {
        let state = before.state.not_searching();
        let done = before.state.cancelling();
        match before.state.fields.find {
            None => self.becomes(before, state, done),
            Some(bar) => if bar.project {
                &&& self.state.fields.find matches Some(after) && after.results@.len() == 0
                    && after == (FindBar { results: after.results, searching: false, ..bar })
                &&& self.becomes(before, state.with_find(self.state.fields.find), done)
            } else if bar.query.text@.len() == 0 {
                self.becomes(before, state, done)
            } else {
                match found {
                    Err(error) => self.complains(before, state, done, error@, now),
                    Ok(matches) => self.goes_to(
                        before,
                        state,
                        done,
                        matches@,
                        next_match(
                            matches@,
                            before.state.pane.docs.front().selection_start() as int,
                        ),
                    ),
                }
            },
        }
    }

    /// Moves the caret to the next or previous match and selects it. `found`
    /// is what the search finds in the active document.
    pub fn find_step(&mut self, forward: bool, found: &Result<Vec<Edit>, String>, now: u64)
        requires
            old(self).state.wf(),
        ensures
            final(self).state.wf(),
            query_of(old(self).state).len() == 0 ==> *final(self) == *old(self),
            query_of(old(self).state).len() > 0 ==> match found {
                Err(error) => final(self).complains(
                    *old(self),
                    old(self).state,
                    Seq::empty(),
                    error@,
                    now,
                ),
                Ok(matches) => match step_target(old(self).state, matches@, forward) {
                    Some(i) => final(self).goes_to(
                        *old(self),
                        old(self).state,
                        Seq::empty(),
                        matches@,
                        Some(i),
                    ),
                    None => {
                        &&& final(self).state.says(
                            "no match for "@ + text::debug_quoted(query_of(old(self).state)),
                            now,
                        )
                        &&& final(self).becomes(
                            *old(self),
                            old(self).state.saying(final(self).state.status.message->0),
                            Seq::empty(),
                        )
                    },
                },
            },
    {
        let query: String = match &self.state.fields.find {
            Some(bar) => bar.query.text.clone(),
            None => String::new(),
        };
        if query.as_str().is_empty() {
            return;
        }
        let matches = match found {
            Err(error) => {
                self.complain(error.as_str(), now);
                return;
            },
            Ok(matches) => matches,
        };
        let front = self.state.pane.docs.active();
        let start: usize = if front.anchor < front.cursor {
            front.anchor
        } else {
            front.cursor
        };
        let selected = front.anchor != front.cursor;
        let target = if forward {
            let from: usize = if selected {
                if start < usize::MAX {
                    start + 1
                } else {
                    start
                }
            } else {
                front.cursor
            };
            find_next(matches, from)
        } else {
            find_previous(
                matches,
                if selected {
                    start
                } else {
                    front.cursor
                },
            )
        };
        match target {
            Some(i) => {
                self.select_match(matches, i);
            },
            None => {
                let shown = quoted(query.as_str());
                self.say(joined("no match for ", shown.as_str()), now);
                assert(self.effects@ =~= old(self).effects@ + Seq::<Effect>::empty());
            },
        }
    }

    /// Opens the find bar, seeding it from the selection when that is a short
    /// piece of one line.
    pub fn open_find(&mut self, now: u64)
        requires
            old(self).state.wf(),
        ensures
            final(self).state.wf(),
            final(self).state.fields.find matches Some(bar) && bar.is_new()
                && bar.seeded_from(old(self).state.pane.docs.front()),
            final(self).shows(
                *old(self),
                old(self).state.with_find(final(self).state.fields.find),
                Seq::empty(),
                now,
            ),
    {
        let front = self.state.pane.docs.active();
        let (from, to) = if front.anchor < front.cursor {
            (front.anchor, front.cursor)
        } else {
            (front.cursor, front.anchor)
        };
        let bytes = buffer::slice_of(&front.text, from, to);
        let chosen = read(&bytes);
        let fits = from < to && bytes.len() < 200 && !text::has_char(chosen.as_str(), '\n');
        let query = if fits {
            Field::selected(chosen.as_str())
        } else {
            Field::new()
        };
        self.state.fields.find = Some(
            FindBar {
                query,
                replacement: Field::new(),
                replacing: false,
                options: SearchOptions { case_sensitive: false, whole_word: false, regex: false },
                project: false,
                results: Vec::new(),
                selected: 0,
                result_scroll: 0,
                searching: false,
            },
        );
        self.show(now);
    }
}

impl FindBar {
    /// A bar as it opens: finding in the document, with no options.
    pub open spec fn is_new(&self) -> bool {
        &&& self.replacement.text@.len() == 0
        &&& self.replacement.cursor == 0
        &&& self.replacement.anchor == 0
        &&& !self.replacing
        &&& self.options == (SearchOptions {
            case_sensitive: false,
            whole_word: false,
            regex: false,
        })
        &&& !self.project
        &&& self.results@.len() == 0
        &&& self.selected == 0
        &&& self.result_scroll == 0
        &&& !self.searching
    }

    /// The query a bar opens with over `front`: the selection, all of it
    /// selected, when it is shorter than 200 bytes and has no line break;
    /// nothing otherwise.
    pub open spec fn seeded_from(&self, front: crate::buffer::Buffer) -> bool {
        let bytes = front.text@.subrange(
            front.selection_start() as int,
            front.selection_end() as int,
        );
        let chosen = text::readable(bytes);
        if front.has_selection() && bytes.len() < 200 && !chosen.contains('\n') {
            &&& self.query.text@ == chosen
            &&& self.query.anchor == 0
            &&& self.query.cursor == vstd::utf8::encode_utf8(chosen).len()
        } else {
            self.query.text@.len() == 0 && self.query.cursor == 0 && self.query.anchor == 0
        }
    }
}

/// Where a step from the active document's caret leads.
pub open spec fn step_target(state: State, matches: Seq<Edit>, forward: bool) -> Option<int> {
    let front = state.pane.docs.front();
    if forward {
        next_match(
            matches,
            if front.has_selection() {
                front.selection_start() + 1
            } else {
                front.cursor as int
            },
        )
    } else {
        previous_match(matches, front.selection_start() as int)
    }
}

/// As long as something matches, a step leads to a match: past the last one it
/// goes on with the first, and before the first with the last.
pub proof fn a_step_always_lands(state: State, matches: Seq<Edit>, forward: bool)
    requires
        matches.len() > 0,
    ensures
        step_target(state, matches, forward) matches Some(i) && 0 <= i < matches.len(),
{
    let front = state.pane.docs.front();
    first_from_is_first(matches, front.selection_start() + 1);
    first_from_is_first(matches, front.cursor as int);
    last_before_is_last(matches, front.selection_start() as int);
}

/// A step selects the nearest match on its side of the selection, or of the
/// caret when nothing is selected, and only that changes: backwards the last
/// that starts before it, forwards the first that starts after it began.
pub proof fn a_step_selects_the_nearest_match(
    after: EditorView,
    before: EditorView,
    matches: Seq<Edit>,
    forward: bool,
    i: int,
)
    requires
        before.state.wf(),
        after.goes_to(
            before,
            before.state,
            Seq::empty(),
            matches,
            step_target(before.state, matches, forward),
        ),
        0 <= i < matches.len(),
        matches[i].start <= matches[i].end <= before.state.pane.docs.front().text@.len(),
        ({
            let front = before.state.pane.docs.front();
            let low = if front.anchor < front.cursor {
                front.anchor
            } else {
                front.cursor
            };
            let from = if front.anchor == front.cursor {
                low as int
            } else {
                low + 1
            };
            if forward {
                ||| matches[i].start >= from && forall|j: int|
                    0 <= j < i ==> (#[trigger] matches[j]).start < from
                ||| i == 0 && forall|j: int|
                    0 <= j < matches.len() ==> (#[trigger] matches[j]).start < from
            } else {
                ||| matches[i].start < low && forall|j: int|
                    i < j < matches.len() ==> (#[trigger] matches[j]).start >= low
                ||| i == matches.len() - 1 && forall|j: int|
                    0 <= j < matches.len() ==> (#[trigger] matches[j]).start >= low
            }
        }),
    ensures
        after.state.pane.docs.active == before.state.pane.docs.active,
        after.state.pane.docs.list@.len() == before.state.pane.docs.list@.len(),
        ({
            let at = before.state.pane.docs.active as int;
            let front = after.state.pane.docs.list@[at];
            &&& front.anchor == matches[i].start
            &&& front.cursor == matches[i].end
            &&& front.text == before.state.pane.docs.list@[at].text
            &&& front.dirty == before.state.pane.docs.list@[at].dirty
        }),
        after.effects@ == before.effects@.push(Effect::ScrollToCursor),
{
    let front = before.state.pane.docs.front();
    the_next_match_is_the_nearest(matches, front.selection_start() + 1, i);
    the_next_match_is_the_nearest(matches, front.cursor as int, i);
    the_previous_match_is_the_nearest(matches, front.selection_start() as int, i);
}

/// Tab crosses between the two fields: twice is back where it was.
pub proof fn tab_twice_is_back(
    first: EditorView,
    second: EditorView,
    third: EditorView,
    event: KeyEvent,
    now: u64,
    later: u64,
)
    requires
        first.state.fields.find is Some,
        keys::plain_code(event.code) == keys::TAB,
        second.handles_find_key(first, event, true, now),
        third.handles_find_key(second, event, true, later),
    ensures
        third.state.fields.find == first.state.fields.find,
        second.state.fields.find != first.state.fields.find,
{
}

} // verus!
