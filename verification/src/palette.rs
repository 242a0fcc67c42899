//! The palette: files, commands, symbols and branches behind one field.

use crate::buffer::Field;
use crate::keys::{self, EditOp, KeyEvent, Motion};
use crate::state::{EditorView, Effect, Fields, PaletteState, State, Target, Task};
use crate::text::{self, chars_of, joined, joined3, same, trim};
use vstd::prelude::*;
use vstd::string::*;

verus! {

/// A local branch.
pub struct Branch {
    pub name: String,
    pub upstream: Option<String>,
    pub current: bool,
}

/// The picture in front of a row.
pub enum RowIcon {
    /// That of a kind of definition.
    Kind(String),
    /// That of a file, by name.
    File(String),
}

/// What a row of the palette says.
pub struct PaletteRow {
    pub icon: Option<RowIcon>,
    pub title: String,
    pub detail: String,
    pub shortcut: String,
}

/// What choosing a palette row does.
pub enum Pick {
    File(String),
    /// A menu item's action.
    Command(String),
    /// A definition: in another file, or in the active document (`None`), and
    /// its zero-based line.
    Symbol(Option<String>, u32),
    Branch(String),
    NewBranch(String),
}

/// What the palette lists.
#[derive(Clone, Copy, PartialEq, Eq, Structural, Debug)]
pub enum PaletteMode {
    Branches,
    DocumentSymbols,
    /// Whether anything has been typed after the mark.
    ProjectSymbols(bool),
    Commands,
    Files,
}

/// The mode a query is in: `@` for the document's symbols, `#` for the
/// project's, `>` for commands, files otherwise. Picking a branch is a mode of
/// its own.
pub open spec fn mode_of(query: Seq<char>, branches: bool) -> PaletteMode {
    if branches {
        PaletteMode::Branches
    } else if query.len() == 0 {
        PaletteMode::Files
    } else if query[0] == '@' {
        PaletteMode::DocumentSymbols
    } else if query[0] == '#' {
        PaletteMode::ProjectSymbols(query.len() > 1)
    } else if query[0] == '>' {
        PaletteMode::Commands
    } else {
        PaletteMode::Files
    }
}

/// See [`mode_of`].
pub fn palette_mode(query: &str, branches: bool) -> (mode: PaletteMode)
    ensures
        mode == mode_of(query@, branches),
{
    if branches {
        return PaletteMode::Branches;
    }
    let chars = chars_of(query);
    if chars.len() == 0 {
        return PaletteMode::Files;
    }
    match chars[0] {
        '@' => PaletteMode::DocumentSymbols,
        '#' => PaletteMode::ProjectSymbols(chars.len() > 1),
        '>' => PaletteMode::Commands,
        _ => PaletteMode::Files,
    }
}

/// The palette's heading and what it says when nothing matches, by mode.
pub fn palette_heading(query: &str, branches: bool) -> (heading: (&'static str, &'static str))
    ensures
        match mode_of(query@, branches) {
            PaletteMode::Branches => heading.0@ == "Switch branch, or type a new name"@
                && heading.1@ == "No branches"@,
            PaletteMode::DocumentSymbols => heading.0@ == "Symbols in this file"@ && heading.1@
                == "No matching symbols"@,
            PaletteMode::ProjectSymbols(typed) => heading.0@ == "Symbols in the project"@
                && heading.1@ == (if typed {
                "No matching symbols"@
            } else {
                "Type a name"@
            }),
            PaletteMode::Commands => heading.0@ == "Commands"@ && heading.1@
                == "No matching commands"@,
            PaletteMode::Files => heading.0@ == "Project files"@ && heading.1@
                == "No matching files"@,
        },
{
    match palette_mode(query, branches) {
        PaletteMode::Branches => ("Switch branch, or type a new name", "No branches"),
        PaletteMode::DocumentSymbols => ("Symbols in this file", "No matching symbols"),
        PaletteMode::ProjectSymbols(typed) => (
            "Symbols in the project",
            if typed {
                "No matching symbols"
            } else {
                "Type a name"
            },
        ),
        PaletteMode::Commands => ("Commands", "No matching commands"),
        PaletteMode::Files => ("Project files", "No matching files"),
    }
}

/// Whether branch `a` comes before branch `b`: a better score, or the same
/// score and an earlier place.
pub open spec fn ranks_before(scores: Seq<Option<i32>>, a: int, b: int) -> bool {
    scores[a]->0 > scores[b]->0 || (scores[a]->0 == scores[b]->0 && a < b)
}

/// `order` is the places that have a score, best first.
pub open spec fn is_ranking(order: Seq<usize>, scores: Seq<Option<i32>>, upto: int) -> bool {
    &&& forall|i: int|
        0 <= i < order.len() ==> (#[trigger] order[i]) < upto && scores[order[i] as int] is Some
    &&& forall|k: usize| k < upto && scores[k as int] is Some ==> #[trigger] order.contains(k)
    &&& forall|i: int, j: int|
        0 <= i < j < order.len() ==> ranks_before(
            scores,
            (#[trigger] order[i]) as int,
            (#[trigger] order[j]) as int,
        )
}

/// The places that have a score, best first.
pub fn ranked(scores: &Vec<Option<i32>>) -> (order: Vec<usize>)
    ensures
        is_ranking(order@, scores@, scores@.len() as int),
{
    let mut order: Vec<usize> = Vec::new();
    let mut k: usize = 0;
    while k < scores.len()
        invariant
            k <= scores@.len(),
            is_ranking(order@, scores@, k as int),
        decreases scores@.len() - k,
    {
        if let Some(score) = scores[k] {
            let ghost before = order@;
            let mut at: usize = order.len();
            while at > 0 && scores_below(scores, order[at - 1], score)
                invariant
                    at <= order@.len(),
                    order@ == before,
                    k < scores@.len(),
                    scores@[k as int] == Some(score),
                    is_ranking(before, scores@, k as int),
                    forall|i: int|
                        at <= i < order@.len() ==> ranks_before(
                            scores@,
                            k as int,
                            (#[trigger] order@[i]) as int,
                        ),
                decreases at,
            {
                at -= 1;
            }
            order.insert(at, k);
            proof {
                assert forall|i: int, j: int| 0 <= i < j < order@.len() implies ranks_before(
                    scores@,
                    (#[trigger] order@[i]) as int,
                    (#[trigger] order@[j]) as int,
                ) by {
                    let a = if i < at {
                        i
                    } else {
                        i - 1
                    };
                    let b = if j < at {
                        j
                    } else {
                        j - 1
                    };
                    if i == at {
                        assert(order@[j] == before[b]);
                    } else if j == at {
                        assert(order@[i] == before[a]);
                        assert(before[at - 1] < k);
                        if i < at - 1 {
                            assert(ranks_before(
                                scores@,
                                before[i] as int,
                                before[at - 1] as int,
                            ));
                        }
                    } else {
                        assert(order@[i] == before[a] && order@[j] == before[b]);
                    }
                }
                assert forall|q: usize| q < k + 1 && scores@[q as int] is Some implies #[trigger] order@.contains(
                q) by {
                    if q == k {
                        assert(order@[at as int] == q);
                    } else {
                        assert(before.contains(q));
                        let i = before.index_of(q);
                        assert(order@[if i < at {
                            i
                        } else {
                            i + 1
                        }] == q);
                    }
                }
                assert forall|i: int| 0 <= i < order@.len() implies (#[trigger] order@[i]) < k + 1
                    && scores@[order@[i] as int] is Some by {
                    if i < at {
                        assert(order@[i] == before[i]);
                    } else if i > at {
                        assert(order@[i] == before[i - 1]);
                    }
                }
            }
        }
        k += 1;
    }
    order
}

/// Whether the score at `place` is below `score`.
fn scores_below(scores: &Vec<Option<i32>>, place: usize, score: i32) -> (r: bool)
    requires
        place < scores@.len(),
        scores@[place as int] is Some,
    ensures
        r == (scores@[place as int]->0 < score),
{
    match scores[place] {
        Some(s) => s < score,
        None => false,
    }
}

/// What a branch's row says below its name.
pub open spec fn branch_detail(branch: Branch) -> Seq<char> {
    if branch.current {
        "current branch"@
    } else {
        match branch.upstream {
            Some(upstream) => "tracks "@ + upstream@,
            None => "local only"@,
        }
    }
}

/// Whether a row and its pick are those of `branch`.
pub open spec fn is_branch_row(row: (PaletteRow, Pick), branch: Branch) -> bool {
    &&& row.0.icon is None
    &&& row.0.title@ == branch.name@
    &&& row.0.detail@ == branch_detail(branch)
    &&& row.0.shortcut@ == ""@
    &&& row.1 == Pick::Branch(branch.name)
}

/// Whether a row offers to create the branch `name`.
pub open spec fn is_creation_row(row: (PaletteRow, Pick), name: Seq<char>) -> bool {
    &&& row.0.icon is None
    &&& row.0.title@ == "Create branch \u{201c}"@ + name + "\u{201d}"@
    &&& row.0.detail@ == "from here, keeping your changes"@
    &&& row.0.shortcut@ == ""@
    &&& row.1 matches Pick::NewBranch(new) && new@ == name
}

/// Whether one of `branches` is called `name`.
pub open spec fn branch_exists(branches: Seq<Branch>, name: Seq<char>) -> bool {
    exists|i: int| 0 <= i < branches.len() && (#[trigger] branches[i]).name@ == name
}

/// See [`branch_exists`].
fn has_branch(branches: &Vec<Branch>, name: &str) -> (r: bool)
    ensures
        r == branch_exists(branches@, name@),
{
    let mut i: usize = 0;
    while i < branches.len()
        invariant
            i <= branches@.len(),
            forall|j: int| 0 <= j < i ==> (#[trigger] branches@[j]).name@ != name@,
        decreases branches@.len() - i,
    {
        if same(branches[i].name.as_str(), name) {
            return true;
        }
        i += 1;
    }
    false
}

/// The branch picker's rows: branches matching the query, best first, then a
/// row to create one named by the query when no branch has that name.
/// `scores` is how well each branch's name matches the query.
pub fn branch_rows(
    branches: &Vec<Branch>,
    scores: &Vec<Option<i32>>,
    query: &str,
) -> (rows: Vec<(PaletteRow, Pick)>)
    requires
        scores@.len() == branches@.len(),
    ensures
        are_branch_rows(rows@, branches@, scores@, query@),
{
    let order = ranked(scores);
    let mut rows: Vec<(PaletteRow, Pick)> = Vec::new();
    let mut i: usize = 0;
    while i < order.len()
        invariant
            i <= order@.len(),
            scores@.len() == branches@.len(),
            is_ranking(order@, scores@, scores@.len() as int),
            rows@.len() == i,
            forall|j: int|
                0 <= j < i ==> is_branch_row(#[trigger] rows@[j], branches@[order@[j] as int]),
        decreases order@.len() - i,
    {
        let branch = &branches[order[i]];
        let detail: String = if branch.current {
            "current branch".to_owned()
        } else {
            match &branch.upstream {
                Some(upstream) => joined("tracks ", upstream.as_str()),
                None => "local only".to_owned(),
            }
        };
        rows.push(
            (
                PaletteRow {
                    icon: None,
                    title: branch.name.clone(),
                    detail,
                    shortcut: "".to_owned(),
                },
                Pick::Branch(branch.name.clone()),
            ),
        );
        i += 1;
    }
    let name = trim(query);
    if !name.as_str().is_empty() && !has_branch(branches, name.as_str()) {
        let row = (
            PaletteRow {
                icon: None,
                title: joined3("Create branch \u{201c}", name.as_str(), "\u{201d}"),
                detail: "from here, keeping your changes".to_owned(),
                shortcut: "".to_owned(),
            },
            Pick::NewBranch(name),
        );
        let ghost before = rows@;
        rows.push(row);
        assert(forall|j: int| 0 <= j < before.len() ==> rows@[j] == before[j]);
    }
    assert(is_ranking(order@, scores@, scores@.len() as int));
    rows
}

/// The furthest the list scrolls: until the last row is at the bottom.
pub open spec fn max_scroll(count: int, visible: int) -> int {
    if count > visible {
        count - visible
    } else {
        0
    }
}

/// The scroll that keeps row `selected` in sight.
pub open spec fn following(scroll: int, selected: int, count: int, visible: int) -> int {
    let wanted = if selected < scroll {
        selected
    } else if selected >= scroll + visible {
        selected + 1 - visible
    } else {
        scroll
    };
    if wanted < 0 {
        0
    } else if wanted > max_scroll(count, visible) {
        max_scroll(count, visible)
    } else {
        wanted
    }
}

/// See [`following`].
pub fn palette_follow(scroll: usize, selected: usize, count: usize, visible: usize) -> (to: usize)
    ensures
        to == following(scroll as int, selected as int, count as int, visible as int),
{
    let max: usize = if count > visible {
        count - visible
    } else {
        0
    };
    let wanted: usize = if selected < scroll {
        selected
    } else if selected - scroll >= visible {
        if visible == 0 {
            if selected < usize::MAX {
                selected + 1
            } else {
                selected
            }
        } else {
            selected - (visible - 1)
        }
    } else {
        scroll
    };
    if wanted > max {
        max
    } else {
        wanted
    }
}

/// The selected row is in sight after following it.
pub proof fn the_selected_row_is_in_sight(scroll: int, selected: int, count: int, visible: int)
    requires
        0 <= scroll,
        0 <= selected < count,
        0 < visible,
    ensures
        ({
            let to = following(scroll, selected, count, visible);
            0 <= to <= selected < to + visible
        }),
{
}

impl State {
    /// The state with another palette and its list scrolled to `scroll`.
    pub open spec fn with_palette(self, palette: Option<PaletteState>, scroll: usize) -> State {
        State { fields: Fields { palette, palette_scroll: scroll, ..self.fields }, ..self }
    }

    /// The state with the palette closed.
    pub open spec fn without_palette(self) -> State {
        State { fields: Fields { palette: None, branch_list: None, ..self.fields }, ..self }
    }
}

/// What a key does to the palette.
#[derive(Clone, Copy, PartialEq, Eq, Structural, Debug)]
pub enum PaletteKey {
    Close,
    Choose,
    Down,
    Up,
    /// Nothing, and nobody else gets it.
    Swallow,
    /// An edit of the query.
    Edit(EditOp),
    /// A deletion: of the selection, or of what `EditOp` selects first.
    Delete(Option<EditOp>),
    /// Command-Delete: to the start of the field.
    ClearLeft,
    Text,
    Ignored,
}

/// See [`PaletteKey`]. A query field is a text field; the standard editing
/// combinations reach it.
pub open spec fn palette_key(event: KeyEvent) -> PaletteKey {
    let code = keys::plain_code(event.code);
    let motion = keys::motion_with(event.flags);
    if event.flags.command {
        if code == keys::DELETE {
            PaletteKey::ClearLeft
        } else {
            PaletteKey::Ignored
        }
    } else if code == keys::ESCAPE {
        PaletteKey::Close
    } else if code == keys::RETURN {
        PaletteKey::Choose
    } else if code == keys::DOWN {
        PaletteKey::Down
    } else if code == keys::UP {
        PaletteKey::Up
    } else if code == keys::DELETE {
        PaletteKey::Delete(
            if event.flags.option {
                Some(EditOp::WordLeft(Motion::Extend))
            } else if event.flags.control {
                Some(EditOp::SelectAll)
            } else {
                None
            },
        )
    } else if code == keys::LEFT {
        PaletteKey::Edit(
            if event.flags.option {
                EditOp::WordLeft(motion)
            } else {
                EditOp::Left(motion)
            },
        )
    } else if code == keys::RIGHT {
        PaletteKey::Edit(
            if event.flags.option {
                EditOp::WordRight(motion)
            } else {
                EditOp::Right(motion)
            },
        )
    } else if code == keys::TAB {
        PaletteKey::Swallow
    } else {
        PaletteKey::Text
    }
}

/// See [`palette_key`].
fn palette_key_of(event: &KeyEvent) -> (k: PaletteKey)
    ensures
        k == palette_key(*event),
{
    let code = keys::code_of(event);
    let motion = keys::motion_for(event.flags);
    if event.flags.command {
        if code == keys::DELETE {
            PaletteKey::ClearLeft
        } else {
            PaletteKey::Ignored
        }
    } else if code == keys::ESCAPE {
        PaletteKey::Close
    } else if code == keys::RETURN {
        PaletteKey::Choose
    } else if code == keys::DOWN {
        PaletteKey::Down
    } else if code == keys::UP {
        PaletteKey::Up
    } else if code == keys::DELETE {
        PaletteKey::Delete(
            if event.flags.option {
                Some(EditOp::WordLeft(Motion::Extend))
            } else if event.flags.control {
                Some(EditOp::SelectAll)
            } else {
                None
            },
        )
    } else if code == keys::LEFT {
        PaletteKey::Edit(
            if event.flags.option {
                EditOp::WordLeft(motion)
            } else {
                EditOp::Left(motion)
            },
        )
    } else if code == keys::RIGHT {
        PaletteKey::Edit(
            if event.flags.option {
                EditOp::WordRight(motion)
            } else {
                EditOp::Right(motion)
            },
        )
    } else if code == keys::TAB {
        PaletteKey::Swallow
    } else {
        PaletteKey::Text
    }
}

/// The edits that delete in the query: the selection, or what `first` selects.
pub open spec fn deletion(selected: bool, first: Option<EditOp>) -> Seq<Effect> {
    (if selected || first is None {
        Seq::empty()
    } else {
        seq![Effect::Edit(Target::Palette, first->0)]
    }).push(Effect::Edit(Target::Palette, EditOp::Backspace))
}

impl PaletteState {
    /// The row selected after an arrow key, with `count` rows.
    pub open spec fn moved(&self, down: bool, count: int) -> usize {
        if down {
            (if self.selected + 1 < count {
                self.selected + 1
            } else if count > 0 {
                count - 1
            } else {
                0
            }) as usize
        } else if self.selected > 0 {
            (self.selected - 1) as usize
        } else {
            0
        }
    }
}

impl EditorView {
    /// Opens the palette. The project index arrives from its worker.
    pub fn open_palette(&mut self, now: u64)
        ensures
            final(self).opens_palette(*old(self), Seq::empty(), now),
            old(self).state.wf() ==> final(self).state.wf(),
    {
        proof {
            reveal_strlit("");
            assert(""@ =~= Seq::<char>::empty());
        }
        self.open_palette_with("", now);
    }

    /// This is `before` with the palette opened on `prefix`.
    pub open spec fn opens_palette(
        &self,
        before: EditorView,
        prefix: Seq<char>,
        now: u64,
    ) -> bool {
        &&& self.state.fields.palette matches Some(palette) && palette.query.text@ == prefix
            && palette.query.cursor == vstd::utf8::encode_utf8(prefix).len()
            && palette.query.anchor == palette.query.cursor && palette.selected == 0
        &&& self.shows(
            before,
            State {
                fields: Fields {
                    palette: self.state.fields.palette,
                    palette_scroll: 0,
                    branch_list: None,
                    ..before.state.fields
                },
                git: crate::git::GitPanel { open: false, ..before.state.git },
                ..before.state
            },
            seq![Effect::ReadCommands, Effect::ReadSymbols],
            now,
        )
    }

    /// Opens the palette with `prefix` typed: `@` for the document's symbols,
    /// `#` for the project's.
    pub fn open_palette_with(&mut self, prefix: &str, now: u64)
        ensures
            final(self).opens_palette(*old(self), prefix@, now),
            old(self).state.wf() ==> final(self).state.wf(),
    {
        self.state.git.open = false;
        // Before the field takes the keyboard: which commands apply is asked
        // of the editor, and a focused field changes the answer.
        self.effects.push(Effect::ReadCommands);
        self.effects.push(Effect::ReadSymbols);
        let ghost done = seq![Effect::ReadCommands, Effect::ReadSymbols];
        assert(self.effects@ =~= old(self).effects@ + done);
        self.state.fields.branch_list = None;
        self.state.fields.palette = Some(
            PaletteState { query: Field::holding(prefix), selected: 0 },
        );
        self.state.fields.palette_scroll = 0;
        self.show(now);
        assert(self.effects@ =~= old(self).effects@ + (done + old(self).pumping(now)));
    }

    /// Closes the palette.
    pub fn close_palette(&mut self, now: u64)
        ensures
            final(self).shows(*old(self), old(self).state.without_palette(), Seq::empty(), now),
            old(self).state.wf() ==> final(self).state.wf(),
    {
        self.state.fields.palette = None;
        self.state.fields.branch_list = None;
        self.show(now);
    }

    /// What follows closing the palette on `pick`.
    pub open spec fn pick_work(pick: Pick) -> Seq<Effect> {
        match pick {
            Pick::Branch(name) => seq![Effect::ChooseBranch(name, false)],
            Pick::NewBranch(name) => seq![Effect::ChooseBranch(name, true)],
            Pick::Symbol(path, line) => seq![Effect::GoToSymbol(path, line)],
            Pick::Command(action) => seq![Effect::RunCommand(action)],
            Pick::File(path) => seq![
                Effect::LoadPath(path),
                Effect::Run(Task::Reparse),
                Effect::RevealInTree(path),
                Effect::Run(Task::Show),
            ],
        }
    }

    /// Acts on a chosen row. A file chosen from the keyboard has its title
    /// written after its first frame.
    pub fn take_pick(&mut self, pick: Pick)
        ensures
            final(self).becomes(
                *old(self),
                old(self).state.title_later(pick is File),
                Self::pick_work(pick),
            ),
            old(self).state.wf() ==> final(self).state.wf(),
    {
        let ghost chosen = pick;
        match pick {
            Pick::Branch(name) => {
                self.effects.push(Effect::ChooseBranch(name, false));
            },
            Pick::NewBranch(name) => {
                self.effects.push(Effect::ChooseBranch(name, true));
            },
            Pick::Symbol(path, line) => {
                self.effects.push(Effect::GoToSymbol(path, line));
            },
            Pick::Command(action) => {
                self.effects.push(Effect::RunCommand(action));
            },
            Pick::File(path) => {
                let again = path.clone();
                self.effects.push(Effect::LoadPath(path));
                self.effects.push(Effect::Run(Task::Reparse));
                self.effects.push(Effect::RevealInTree(again));
                self.effects.push(Effect::Run(Task::Show));
                self.state.frame.title_sync_pending = true;
            },
        }
        assert(self.effects@ =~= old(self).effects@ + Self::pick_work(chosen));
    }

    /// This is `before` after a key in the palette, which lists `picks` and
    /// shows `visible` rows of them.
    pub open spec fn handles_palette_key(
        &self,
        before: EditorView,
        event: KeyEvent,
        picks: Seq<Pick>,
        visible: int,
        handled: bool,
        now: u64,
    ) -> bool {
        let palette = before.state.fields.palette->0;
        let scroll = before.state.fields.palette_scroll;
        let afresh = before.state.with_palette(Some(PaletteState { selected: 0, ..palette }), scroll);
        let key = palette_key(event);
        if before.state.fields.palette is None {
            match key {
                PaletteKey::Close => handled && self.shows(
                    before,
                    before.state.without_palette(),
                    Seq::empty(),
                    now,
                ),
                PaletteKey::Down | PaletteKey::Up => handled && self.shows(
                    before,
                    before.state,
                    Seq::empty(),
                    now,
                ),
                _ => !handled && *self == before,
            }
        } else {
            &&& handled == !(key is Ignored)
            &&& match key {
                PaletteKey::Ignored | PaletteKey::Swallow => *self == before,
                PaletteKey::Text => self.becomes(before, before.state, seq![Effect::Interpret]),
                PaletteKey::Close => self.shows(
                    before,
                    before.state.without_palette(),
                    Seq::empty(),
                    now,
                ),
                PaletteKey::Choose => if palette.selected < picks.len() {
                    let pick = picks[palette.selected as int];
                    self.marks(
                        before,
                        before.state.without_palette().title_later(pick is File),
                        before.pumping(now) + Self::pick_work(pick),
                    )
                } else {
                    self.shows(before, before.state.without_palette(), Seq::empty(), now)
                },
                PaletteKey::Down | PaletteKey::Up => {
                    let selected = palette.moved(key is Down, picks.len() as int);
                    self.shows(
                        before,
                        before.state.with_palette(
                            Some(PaletteState { selected, ..palette }),
                            following(
                                scroll as int,
                                selected as int,
                                picks.len() as int,
                                visible,
                            ) as usize,
                        ),
                        Seq::empty(),
                        now,
                    )
                },
                PaletteKey::Edit(op) => self.shows(
                    before,
                    afresh,
                    seq![Effect::Edit(Target::Palette, op)],
                    now,
                ),
                PaletteKey::Delete(first) => self.shows(
                    before,
                    afresh,
                    deletion(palette.query.has_selection(), first),
                    now,
                ),
                PaletteKey::ClearLeft => self.shows(
                    before,
                    before.state.with_palette(Some(PaletteState { selected: 0, ..palette }), 0),
                    deletion(
                        palette.query.has_selection(),
                        Some(EditOp::LineStart(Motion::Extend)),
                    ),
                    now,
                ),
            }
        }
    }

    /// Keys while the palette is open, which lists `picks` and shows `visible`
    /// rows of them. Returns whether it consumed them.
    pub fn handle_palette_key(
        &mut self,
        event: &KeyEvent,
        picks: Vec<Pick>,
        visible: usize,
        now: u64,
    ) -> (handled: bool)
        requires
            old(self).state.wf(),
        ensures
            final(self).state.wf(),
            final(self).handles_palette_key(
                *old(self),
                *event,
                picks@,
                visible as int,
                handled,
                now,
            ),
    {
        let key = palette_key_of(event);
        if self.state.fields.palette.is_none() {
            match key {
                PaletteKey::Close => {
                    self.close_palette(now);
                    return true;
                },
                PaletteKey::Down | PaletteKey::Up => {
                    self.show(now);
                    return true;
                },
                _ => {
                    return false;
                },
            }
        }
        match key {
            PaletteKey::Ignored => {
                return false;
            },
            PaletteKey::Swallow => {},
            PaletteKey::Text => {
                self.ask(Effect::Interpret);
            },
            PaletteKey::Close => {
                self.close_palette(now);
            },
            PaletteKey::Choose => {
                self.choose_row(picks, now);
            },
            PaletteKey::Down => {
                self.move_row(true, picks.len(), visible, now);
            },
            PaletteKey::Up => {
                self.move_row(false, picks.len(), visible, now);
            },
            PaletteKey::Edit(op) => {
                self.effects.push(Effect::Edit(Target::Palette, op));
                let ghost done = seq![Effect::Edit(Target::Palette, op)];
                assert(self.effects@ =~= old(self).effects@ + done);
                self.first_row();
                self.show(now);
                assert(self.effects@ =~= old(self).effects@ + (done + old(self).pumping(now)));
            },
            PaletteKey::Delete(first) => {
                self.delete_in_query(first, now);
            },
            PaletteKey::ClearLeft => {
                self.state.fields.palette_scroll = 0;
                self.delete_in_query(Some(EditOp::LineStart(Motion::Extend)), now);
            },
        }
        true
    }

    /// A different query invalidates the selected row.
    fn first_row(&mut self)
        requires
            old(self).state.fields.palette is Some,
        ensures
            final(self).becomes(
                *old(self),
                old(self).state.with_palette(
                    Some(PaletteState { selected: 0, ..old(self).state.fields.palette->0 }),
                    old(self).state.fields.palette_scroll,
                ),
                Seq::empty(),
            ),
            old(self).state.wf() ==> final(self).state.wf(),
    {
        if let Some(palette) = &mut self.state.fields.palette {
            palette.selected = 0;
        }
        assert(self.effects@ =~= old(self).effects@ + Seq::<Effect>::empty());
    }

    /// Deletes in the query and selects the first row.
    fn delete_in_query(&mut self, first: Option<EditOp>, now: u64)
        requires
            old(self).state.fields.palette is Some,
        ensures
            final(self).shows(
                *old(self),
                old(self).state.with_palette(
                    Some(PaletteState { selected: 0, ..old(self).state.fields.palette->0 }),
                    old(self).state.fields.palette_scroll,
                ),
                deletion(old(self).state.fields.palette->0.query.has_selection(), first),
                now,
            ),
            old(self).state.wf() ==> final(self).state.wf(),
    {
        let selected = match &self.state.fields.palette {
            Some(palette) => palette.query.cursor != palette.query.anchor,
            None => false,
        };
        if !selected {
            if let Some(op) = first {
                self.effects.push(Effect::Edit(Target::Palette, op));
            }
        }
        self.effects.push(Effect::Edit(Target::Palette, EditOp::Backspace));
        let ghost done = deletion(selected, first);
        assert(self.effects@ =~= old(self).effects@ + done);
        self.first_row();
        self.show(now);
        assert(self.effects@ =~= old(self).effects@ + (done + old(self).pumping(now)));
    }

    /// Selects the next row down or up and keeps it in sight.
    fn move_row(&mut self, down: bool, count: usize, visible: usize, now: u64)
        requires
            old(self).state.fields.palette is Some,
        ensures
            ({
                let palette = old(self).state.fields.palette->0;
                let selected = palette.moved(down, count as int);
                final(self).shows(
                    *old(self),
                    old(self).state.with_palette(
                        Some(PaletteState { selected, ..palette }),
                        following(
                            old(self).state.fields.palette_scroll as int,
                            selected as int,
                            count as int,
                            visible as int,
                        ) as usize,
                    ),
                    Seq::empty(),
                    now,
                )
            }),
            old(self).state.wf() ==> final(self).state.wf(),
    {
        let mut selected: usize = 0;
        if let Some(palette) = &mut self.state.fields.palette {
            if down {
                palette.selected = if palette.selected < count && palette.selected + 1 < count {
                    palette.selected + 1
                } else if count > 0 {
                    count - 1
                } else {
                    0
                };
            } else if palette.selected > 0 {
                palette.selected -= 1;
            }
            selected = palette.selected;
        }
        self.state.fields.palette_scroll = palette_follow(
            self.state.fields.palette_scroll,
            selected,
            count,
            visible,
        );
        self.show(now);
    }

    /// Closes the palette and acts on the selected row.
    fn choose_row(&mut self, picks: Vec<Pick>, now: u64)
        requires
            old(self).state.fields.palette is Some,
        ensures
            ({
                let at = old(self).state.fields.palette->0.selected;
                if at < picks@.len() {
                    let pick = picks@[at as int];
                    final(self).marks(
                        *old(self),
                        old(self).state.without_palette().title_later(pick is File),
                        old(self).pumping(now) + Self::pick_work(pick),
                    )
                } else {
                    final(self).shows(
                        *old(self),
                        old(self).state.without_palette(),
                        Seq::empty(),
                        now,
                    )
                }
            }),
            old(self).state.wf() ==> final(self).state.wf(),
    {
        let mut picks = picks;
        let at: usize = match &self.state.fields.palette {
            Some(palette) => palette.selected,
            None => 0,
        };
        self.close_palette(now);
        if at < picks.len() {
            let pick = picks.swap_remove(at);
            let ghost chosen = pick;
            self.take_pick(pick);
            assert(self.effects@ =~= old(self).effects@ + (old(self).pumping(now)
                + Self::pick_work(chosen)));
        }
    }
}

impl State {
    /// The state with the title to be written after the next frame, if so.
    pub open spec fn title_later(self, later: bool) -> State {
        State {
            frame: crate::state::Pacing {
                title_sync_pending: later || self.frame.title_sync_pending,
                ..self.frame
            },
            ..self
        }
    }
}

/// A definition that matches the query.
pub struct SymbolHit {
    pub name: String,
    /// What it is and where, in words.
    pub detail: String,
    /// What kind of definition it is.
    pub kind: String,
    /// The file it is in; `None` is the active document.
    pub path: Option<String>,
    pub line: u32,
}

/// A command of the menu bar.
pub struct Command {
    pub title: String,
    pub group: String,
    pub shortcut: String,
    pub action: String,
}

/// A file that matches the query, and how it is shown. Either can be missing
/// when the project changed since.
pub struct FileHit {
    pub row: Option<PaletteRow>,
    pub path: Option<String>,
}

/// What the palette lists from: what the query found in each of them.
pub struct PaletteSources {
    /// How well each branch's name matches.
    pub scores: Vec<Option<i32>>,
    pub symbols: Vec<SymbolHit>,
    pub commands: Vec<Command>,
    /// The commands that match, best first.
    pub matches: Vec<usize>,
    pub files: Vec<FileHit>,
}

/// Whether a row and its pick are those of a definition.
pub open spec fn is_symbol_row(row: (PaletteRow, Pick), hit: SymbolHit) -> bool {
    &&& row.0.icon == Some(RowIcon::Kind(hit.kind))
    &&& row.0.title == hit.name
    &&& row.0.detail == hit.detail
    &&& row.0.shortcut@ == ""@
    &&& row.1 == Pick::Symbol(hit.path, hit.line)
}

/// Whether a row and its pick are those of a command.
pub open spec fn is_command_row(row: (PaletteRow, Pick), command: Command) -> bool {
    &&& row.0.icon is None
    &&& row.0.title == command.title
    &&& row.0.detail == command.group
    &&& row.0.shortcut == command.shortcut
    &&& row.1 == Pick::Command(command.action)
}

/// Whether a row and its pick are those of a file.
pub open spec fn is_file_row(row: (PaletteRow, Pick), hit: FileHit) -> bool {
    &&& hit.row matches Some(shown)
    &&& row.0.icon == shown.icon
    &&& row.0.title == shown.title
    &&& row.0.detail == shown.detail
    &&& row.0.shortcut == shown.shortcut
    &&& hit.path matches Some(path)
    &&& row.1 == Pick::File(path)
}

/// The files that are still there.
pub open spec fn present_files(files: Seq<FileHit>) -> Seq<FileHit>
    decreases files.len(),
{
    if files.len() == 0 {
        Seq::empty()
    } else if files.last().row is Some && files.last().path is Some {
        present_files(files.drop_last()).push(files.last())
    } else {
        present_files(files.drop_last())
    }
}

/// The rows of the branch picker: see [`branch_rows`].
pub open spec fn are_branch_rows(
    rows: Seq<(PaletteRow, Pick)>,
    branches: Seq<Branch>,
    scores: Seq<Option<i32>>,
    query: Seq<char>,
) -> bool {
    let name = text::trimmed(query);
    let creates = name.len() > 0 && !branch_exists(branches, name);
    exists|order: Seq<usize>|
        {
            &&& #[trigger] is_ranking(order, scores, scores.len() as int)
            &&& rows.len() == order.len() + (if creates {
                1nat
            } else {
                0nat
            })
            &&& forall|i: int|
                0 <= i < order.len() ==> is_branch_row(
                    #[trigger] rows[i],
                    branches[order[i] as int],
                )
            &&& creates ==> is_creation_row(rows.last(), name)
        }
}

/// The rows of definitions.
pub open spec fn are_symbol_rows(rows: Seq<(PaletteRow, Pick)>, hits: Seq<SymbolHit>) -> bool {
    &&& rows.len() == hits.len()
    &&& forall|i: int| 0 <= i < rows.len() ==> is_symbol_row(#[trigger] rows[i], hits[i])
}

/// The rows of the commands that match, `limit` at most.
pub open spec fn are_command_rows(
    rows: Seq<(PaletteRow, Pick)>,
    commands: Seq<Command>,
    matches: Seq<usize>,
    limit: int,
) -> bool {
    &&& rows.len() == if matches.len() < limit {
        matches.len() as int
    } else {
        limit
    }
    &&& forall|i: int|
        0 <= i < rows.len() ==> is_command_row(#[trigger] rows[i], commands[matches[i] as int])
}

/// The rows of the files that are still there.
pub open spec fn are_file_rows(rows: Seq<(PaletteRow, Pick)>, files: Seq<FileHit>) -> bool {
    &&& rows.len() == present_files(files).len()
    &&& forall|i: int|
        0 <= i < rows.len() ==> is_file_row(#[trigger] rows[i], present_files(files)[i])
}

/// See [`are_symbol_rows`].
fn symbol_rows(hits: &Vec<SymbolHit>) -> (rows: Vec<(PaletteRow, Pick)>)
    ensures
        are_symbol_rows(rows@, hits@),
{
    let mut rows: Vec<(PaletteRow, Pick)> = Vec::new();
    let mut i: usize = 0;
    while i < hits.len()
        invariant
            i <= hits@.len(),
            rows@.len() == i,
            forall|j: int| 0 <= j < i ==> is_symbol_row(#[trigger] rows@[j], hits@[j]),
        decreases hits@.len() - i,
    {
        let hit = &hits[i];
        let path = match &hit.path {
            Some(path) => Some(path.clone()),
            None => None,
        };
        let row = PaletteRow {
            icon: Some(RowIcon::Kind(hit.kind.clone())),
            title: hit.name.clone(),
            detail: hit.detail.clone(),
            shortcut: "".to_owned(),
        };
        rows.push((row, Pick::Symbol(path, hit.line)));
        i += 1;
    }
    rows
}

/// See [`are_command_rows`].
fn command_rows(commands: &Vec<Command>, matches: &Vec<usize>, limit: usize) -> (rows: Vec<
    (PaletteRow, Pick),
>)
    requires
        forall|i: int| 0 <= i < matches@.len() ==> (#[trigger] matches@[i]) < commands@.len(),
    ensures
        are_command_rows(rows@, commands@, matches@, limit as int),
{
    let mut rows: Vec<(PaletteRow, Pick)> = Vec::new();
    let mut i: usize = 0;
    while i < matches.len() && i < limit
        invariant
            i <= matches@.len(),
            i <= limit,
            forall|i: int| 0 <= i < matches@.len() ==> (#[trigger] matches@[i]) < commands@.len(),
            rows@.len() == i,
            forall|j: int|
                0 <= j < i ==> is_command_row(#[trigger] rows@[j], commands@[matches@[j] as int]),
        decreases matches@.len() - i,
    {
        let command = &commands[matches[i]];
        let row = PaletteRow {
            icon: None,
            title: command.title.clone(),
            detail: command.group.clone(),
            shortcut: command.shortcut.clone(),
        };
        rows.push((row, Pick::Command(command.action.clone())));
        i += 1;
    }
    rows
}

/// A copy of an icon.
fn copy_icon(icon: &Option<RowIcon>) -> (copy: Option<RowIcon>)
    ensures
        copy == *icon,
{
    match icon {
        Some(RowIcon::Kind(kind)) => Some(RowIcon::Kind(kind.clone())),
        Some(RowIcon::File(name)) => Some(RowIcon::File(name.clone())),
        None => None,
    }
}

/// See [`are_file_rows`].
fn file_rows(files: &Vec<FileHit>) -> (rows: Vec<(PaletteRow, Pick)>)
    ensures
        are_file_rows(rows@, files@),
{
    let mut rows: Vec<(PaletteRow, Pick)> = Vec::new();
    let mut i: usize = 0;
    while i < files.len()
        invariant
            i <= files@.len(),
            are_file_rows(rows@, files@.take(i as int)),
        decreases files@.len() - i,
    {
        assert(files@.take(i + 1).drop_last() =~= files@.take(i as int));
        if let (Some(row), Some(path)) = (&files[i].row, &files[i].path) {
            let row = PaletteRow {
                icon: copy_icon(&row.icon),
                title: row.title.clone(),
                detail: row.detail.clone(),
                shortcut: row.shortcut.clone(),
            };
            rows.push((row, Pick::File(path.clone())));
        }
        i += 1;
    }
    assert(files@.take(i as int) =~= files@);
    rows
}

/// The palette's rows for `query`: branches while one is being picked,
/// definitions after a leading `@` or `#`, menu commands after a leading `>`,
/// project files otherwise. `limit` is how many commands are listed at most.
pub fn palette_rows(
    branches: &Option<Vec<Branch>>,
    sources: &PaletteSources,
    query: &str,
    limit: usize,
) -> (rows: Vec<(PaletteRow, Pick)>)
    requires
        branches matches Some(list) ==> sources.scores@.len() == list@.len(),
        forall|i: int|
            0 <= i < sources.matches@.len() ==> (#[trigger] sources.matches@[i])
                < sources.commands@.len(),
    ensures
        match mode_of(query@, branches is Some) {
            PaletteMode::Branches => are_branch_rows(
                rows@,
                branches->0@,
                sources.scores@,
                query@,
            ),
            PaletteMode::DocumentSymbols => are_symbol_rows(rows@, sources.symbols@),
            PaletteMode::ProjectSymbols(_) => are_symbol_rows(rows@, sources.symbols@),
            PaletteMode::Commands => are_command_rows(
                rows@,
                sources.commands@,
                sources.matches@,
                limit as int,
            ),
            PaletteMode::Files => are_file_rows(rows@, sources.files@),
        },
{
    if let Some(list) = branches {
        return branch_rows(list, &sources.scores, query);
    }
    match palette_mode(query, false) {
        PaletteMode::DocumentSymbols => symbol_rows(&sources.symbols),
        PaletteMode::ProjectSymbols(_) => symbol_rows(&sources.symbols),
        PaletteMode::Commands => command_rows(&sources.commands, &sources.matches, limit),
        _ => file_rows(&sources.files),
    }
}

} // verus!
