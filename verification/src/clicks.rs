//! Clicks in the find bar and the palette, and the wheel.

use crate::buffer::Field;
use crate::find::{FindBar, SearchOptions};
use crate::frame::{self, lands, Chrome, Hit, Rect};
use crate::focus::active_review;
use crate::palette::{self, Pick};
use crate::panes::PaneStore;
use crate::state::{EditorView, Effect, Fields, PaletteState, Spot, State, Task};
use crate::tabs::default_preview;
use crate::terminal::TerminalPanel;
use vstd::prelude::*;

verus! {

/// Where the parts of the find bar are.
pub struct FindParts {
    /// The option chips: case, whole word, pattern, project.
    pub options: Vec<Rect>,
    pub close: Rect,
    pub previous: Rect,
    pub next: Rect,
    pub replace_one: Rect,
    pub replace_all: Rect,
    pub find_field: Rect,
    pub replace_field: Rect,
    /// The row of the results under the pointer.
    pub row: Option<usize>,
    /// The caret under the pointer, in the field it is in.
    pub caret: Option<usize>,
}

/// What of the find bar is clicked.
#[derive(Clone, Copy, PartialEq, Eq, Structural, Debug)]
pub enum FindSpot {
    Option(usize),
    Close,
    Step(bool),
    ReplaceOne,
    ReplaceAll,
    Result(usize),
    /// A field: the replacement's, or the query's.
    Field(bool),
    Nowhere,
}

/// The first chip the point lies in.
pub open spec fn chip_at(options: Seq<Rect>, x: i32, y: i32) -> Option<int>
    decreases options.len(),
{
    if options.len() == 0 {
        None
    } else {
        match chip_at(options.drop_last(), x, y) {
            Some(i) => Some(i),
            None => if options.last().has(x, y) {
                Some(options.len() - 1)
            } else {
                None
            },
        }
    }
}

/// What is clicked: chips first, then the buttons, the results of a search in
/// the project, and the fields.
pub open spec fn find_spot(parts: FindParts, project: bool, x: i32, y: i32) -> FindSpot {
    if chip_at(parts.options@, x, y) is Some {
        FindSpot::Option(chip_at(parts.options@, x, y)->0 as usize)
    } else if parts.close.has(x, y) {
        FindSpot::Close
    } else if parts.previous.has(x, y) || parts.next.has(x, y) {
        FindSpot::Step(parts.next.has(x, y))
    } else if parts.replace_one.has(x, y) {
        FindSpot::ReplaceOne
    } else if parts.replace_all.has(x, y) {
        FindSpot::ReplaceAll
    } else if parts.row is Some && project {
        FindSpot::Result(parts.row->0)
    } else if parts.find_field.has(x, y) || parts.replace_field.has(x, y) {
        FindSpot::Field(parts.replace_field.has(x, y))
    } else {
        FindSpot::Nowhere
    }
}

/// See [`chip_at`].
fn find_chip(options: &Vec<Rect>, x: i32, y: i32) -> (at: Option<usize>)
    ensures
        match (at, chip_at(options@, x, y)) {
            (Some(i), Some(j)) => i == j,
            (None, None) => true,
            _ => false,
        },
{
    let mut found: Option<usize> = None;
    let mut i: usize = 0;
    assert(options@.take(0) =~= Seq::empty());
    while i < options.len()
        invariant
            i <= options@.len(),
            match (found, chip_at(options@.take(i as int), x, y)) {
                (Some(a), Some(b)) => a == b,
                (None, None) => true,
                _ => false,
            },
        decreases options@.len() - i,
    {
        assert(options@.take(i + 1).drop_last() =~= options@.take(i as int));
        if found.is_none() && options[i].contains(x, y) {
            found = Some(i);
        }
        i += 1;
    }
    assert(options@.take(options@.len() as int) =~= options@);
    found
}

/// See [`find_spot`].
fn spot_in_bar(parts: &FindParts, project: bool, x: i32, y: i32) -> (spot: FindSpot)
    ensures
        spot == find_spot(*parts, project, x, y),
{
    if let Some(slot) = find_chip(&parts.options, x, y) {
        return FindSpot::Option(slot);
    }
    if parts.close.contains(x, y) {
        return FindSpot::Close;
    }
    if parts.previous.contains(x, y) || parts.next.contains(x, y) {
        return FindSpot::Step(parts.next.contains(x, y));
    }
    if parts.replace_one.contains(x, y) {
        return FindSpot::ReplaceOne;
    }
    if parts.replace_all.contains(x, y) {
        return FindSpot::ReplaceAll;
    }
    if project {
        if let Some(row) = parts.row {
            return FindSpot::Result(row);
        }
    }
    if parts.find_field.contains(x, y) || parts.replace_field.contains(x, y) {
        return FindSpot::Field(parts.replace_field.contains(x, y));
    }
    FindSpot::Nowhere
}

/// The options with chip `slot` turned over; the last is the bar's own.
pub open spec fn turned(options: SearchOptions, slot: usize) -> SearchOptions {
    if slot == 0 {
        SearchOptions { case_sensitive: !options.case_sensitive, ..options }
    } else if slot == 1 {
        SearchOptions { whole_word: !options.whole_word, ..options }
    } else if slot == 2 {
        SearchOptions { regex: !options.regex, ..options }
    } else {
        options
    }
}

/// Whether `after` is `before` with chip `slot` turned over, and no results.
pub open spec fn turns_chip(after: FindBar, before: FindBar, slot: usize) -> bool {
    &&& after.results@.len() == 0
    &&& after == (FindBar {
        options: turned(before.options, slot),
        project: if slot > 2 {
            !before.project
        } else {
            before.project
        },
        results: after.results,
        ..before
    })
}

/// The field with its caret at `at`, if the pointer is over a caret.
pub open spec fn field_at(field: Field, at: Option<usize>) -> Field {
    match at {
        Some(at) => Field { cursor: at, anchor: at, ..field },
        None => field,
    }
}

/// The bar with one of its fields clicked.
pub open spec fn focused_field(bar: FindBar, replace: bool, at: Option<usize>) -> FindBar {
    if replace {
        FindBar { replacing: true, replacement: field_at(bar.replacement, at), ..bar }
    } else {
        FindBar { replacing: false, query: field_at(bar.query, at), ..bar }
    }
}

/// What a click on a button asks for.
pub open spec fn button_work(spot: FindSpot, project: bool) -> Seq<Effect> {
    match spot {
        FindSpot::Close => seq![Effect::Run(Task::CloseFind)],
        FindSpot::Step(forward) => if project {
            Seq::empty()
        } else {
            seq![Effect::Run(Task::FindStep(forward))]
        },
        FindSpot::ReplaceOne => seq![
            Effect::Run(
                if project {
                    Task::SearchProject
                } else {
                    Task::ReplaceOne
                },
            ),
        ],
        FindSpot::ReplaceAll => seq![
            Effect::Run(
                if project {
                    Task::ReplaceInProject
                } else {
                    Task::ReplaceAll
                },
            ),
        ],
        _ => Seq::empty(),
    }
}

impl State {
    /// The state with another find bar.
    pub open spec fn with_bar(self, bar: FindBar) -> State {
        State { fields: Fields { find: Some(bar), ..self.fields }, ..self }
    }
}

impl EditorView {
    /// This is `before` after a click in the find bar.
    pub open spec fn clicks_find(
        &self,
        before: EditorView,
        spot: FindSpot,
        caret: Option<usize>,
        now: u64,
    ) -> bool {
        let bar = before.state.fields.find->0;
        if before.state.fields.find is None {
            self.shows(
                before,
                before.state,
                if spot is Option {
                    seq![Effect::Run(Task::RefreshFind)]
                } else {
                    button_work(spot, false)
                },
                now,
            )
        } else {
            match spot {
                FindSpot::Option(slot) => {
                    &&& self.state.fields.find matches Some(turned)
                    &&& turns_chip(turned, bar, slot)
                    &&& self.shows(
                        before,
                        before.state.with_bar(turned),
                        seq![Effect::Run(Task::RefreshFind)],
                        now,
                    )
                },
                FindSpot::Step(forward) => self.shows(
                    before,
                    if bar.project {
                        before.state.with_bar(bar.stepped(forward))
                    } else {
                        before.state
                    },
                    button_work(spot, bar.project),
                    now,
                ),
                FindSpot::Result(row) => if bar.result_scroll + row < bar.results@.len() {
                    self.becomes(
                        before,
                        before.state,
                        seq![Effect::Run(Task::OpenResult((bar.result_scroll + row) as usize))],
                    )
                } else {
                    *self == before
                },
                FindSpot::Field(replace) => self.shows(
                    before,
                    before.state.with_bar(focused_field(bar, replace, caret)),
                    Seq::empty(),
                    now,
                ),
                _ => self.shows(before, before.state, button_work(spot, bar.project), now),
            }
        }
    }

    /// A click in the find bar, whose parts are where they were drawn.
    pub fn find_click(&mut self, at: Spot, parts: &FindParts, now: u64)
        requires
            old(self).state.wf(),
        ensures
            final(self).state.wf(),
            final(self).clicks_find(
                *old(self),
                find_spot(
                    *parts,
                    old(self).state.fields.find matches Some(bar) && bar.project,
                    at.x,
                    at.y,
                ),
                parts.caret,
                now,
            ),
    {
        let project = match &self.state.fields.find {
            Some(bar) => bar.project,
            None => false,
        };
        let spot = spot_in_bar(parts, project, at.x, at.y);
        match spot {
            FindSpot::Option(slot) => {
                self.turn_chip(slot, now);
            },
            FindSpot::Result(row) => {
                let index = match &self.state.fields.find {
                    Some(bar) => if bar.result_scroll < bar.results.len() && row
                        < bar.results.len() - bar.result_scroll {
                        Some(bar.result_scroll + row)
                    } else {
                        None
                    },
                    None => None,
                };
                if let Some(index) = index {
                    self.ask(Effect::Run(Task::OpenResult(index)));
                }
            },
            FindSpot::Field(replace) => {
                self.focus_field(replace, parts.caret, now);
            },
            _ => {
                self.press_button(spot, project, now);
            },
        }
    }

    /// Turns chip `slot` over.
    fn turn_chip(&mut self, slot: usize, now: u64)
        requires
            old(self).state.wf(),
        ensures
            final(self).state.wf(),
            final(self).clicks_find(*old(self), FindSpot::Option(slot), None, now),
    {
        if let Some(bar) = &mut self.state.fields.find {
            if slot == 0 {
                bar.options.case_sensitive = !bar.options.case_sensitive;
            } else if slot == 1 {
                bar.options.whole_word = !bar.options.whole_word;
            } else if slot == 2 {
                bar.options.regex = !bar.options.regex;
            } else {
                bar.project = !bar.project;
            }
            bar.results.clear();
        }
        proof {
            if old(self).state.fields.find is Some {
                let turned = self.state.fields.find->0;
                assert(turns_chip(turned, old(self).state.fields.find->0, slot));
                assert(self.state == old(self).state.with_bar(turned));
            }
        }
        self.ask(Effect::Run(Task::RefreshFind));
        self.show(now);
        assert(self.effects@ =~= old(self).effects@ + (seq![Effect::Run(Task::RefreshFind)] + old(
            self,
        ).pumping(now)));
    }

    /// Gives one of the fields the caret.
    fn focus_field(&mut self, replace: bool, caret: Option<usize>, now: u64)
        requires
            old(self).state.wf(),
        ensures
            final(self).state.wf(),
            final(self).clicks_find(*old(self), FindSpot::Field(replace), caret, now),
    {
        if let Some(bar) = &mut self.state.fields.find {
            bar.replacing = replace;
            if let Some(at) = caret {
                if replace {
                    bar.replacement.cursor = at;
                    bar.replacement.anchor = at;
                } else {
                    bar.query.cursor = at;
                    bar.query.anchor = at;
                }
            }
        }
        proof {
            if let Some(bar) = old(self).state.fields.find {
                assert(self.state == old(self).state.with_bar(focused_field(bar, replace, caret)));
            }
        }
        self.show(now);
        assert(self.effects@ =~= old(self).effects@ + (Seq::<Effect>::empty() + old(self).pumping(
            now,
        )));
    }

    /// Presses one of the buttons.
    fn press_button(&mut self, spot: FindSpot, project: bool, now: u64)
        requires
            old(self).state.wf(),
            project == (old(self).state.fields.find matches Some(bar) && bar.project),
            !(spot is Option || spot is Result || spot is Field),
        ensures
            final(self).state.wf(),
            final(self).clicks_find(*old(self), spot, None, now),
    {
        match spot {
            FindSpot::Close => self.effects.push(Effect::Run(Task::CloseFind)),
            FindSpot::Step(forward) => {
                if project {
                    if let Some(bar) = &mut self.state.fields.find {
                        bar.step(forward);
                    }
                } else {
                    self.effects.push(Effect::Run(Task::FindStep(forward)));
                }
            },
            FindSpot::ReplaceOne => self.effects.push(
                Effect::Run(
                    if project {
                        Task::SearchProject
                    } else {
                        Task::ReplaceOne
                    },
                ),
            ),
            FindSpot::ReplaceAll => self.effects.push(
                Effect::Run(
                    if project {
                        Task::ReplaceInProject
                    } else {
                        Task::ReplaceAll
                    },
                ),
            ),
            _ => {},
        }
        let ghost done = button_work(spot, project);
        assert(self.effects@ =~= old(self).effects@ + done);
        self.show(now);
        assert(self.effects@ =~= old(self).effects@ + (done + old(self).pumping(now)));
    }
}

/// Where the palette's header ends.
pub const PALETTE_HEADER: i32 = 5_200;

/// The corner of the palette that closes it: this much from the right, and
/// this much from the top.
pub const CLOSE_WIDTH: i32 = 5_200;

/// See [`CLOSE_WIDTH`].
pub const CLOSE_HEIGHT: i32 = 5_000;

/// Whether a click closes the palette: outside it, or on its cross.
pub open spec fn click_closes(rect: Rect, at: Spot) -> bool {
    ||| !rect.has(at.x, at.y)
    ||| (at.x >= rect.x + rect.width - CLOSE_WIDTH && at.y < rect.y + CLOSE_HEIGHT)
}

/// The row of the list that is drawn first.
pub open spec fn first_shown(scroll: usize, count: int, visible: int) -> int {
    if scroll < palette::max_scroll(count, visible) {
        scroll as int
    } else {
        palette::max_scroll(count, visible)
    }
}

/// What follows closing the palette on a clicked row. A clicked file has its
/// title written at once.
pub open spec fn clicked_work(pick: Pick) -> Seq<Effect> {
    match pick {
        Pick::File(path) => seq![
            Effect::LoadPath(path),
            Effect::SyncTitle,
            Effect::Run(Task::Reparse),
            Effect::RevealInTree(path),
            Effect::Run(Task::Show),
        ],
        _ => EditorView::pick_work(pick),
    }
}

/// What is clicked in the palette, as it was drawn.
pub struct PaletteParts {
    pub rect: Rect,
    /// The row under the pointer, counted from the first one drawn.
    pub row: Option<usize>,
    /// The caret under the pointer.
    pub caret: Option<usize>,
    pub picks: Vec<Pick>,
    /// How many rows are drawn.
    pub visible: usize,
}

/// The pick that is clicked.
pub open spec fn clicked_pick(scroll: usize, parts: PaletteParts) -> Option<Pick> {
    match parts.row {
        Some(row) => {
            let at = first_shown(scroll, parts.picks@.len() as int, parts.visible as int) + row;
            if at < parts.picks@.len() {
                Some(parts.picks@[at])
            } else {
                None
            }
        },
        None => None,
    }
}

impl EditorView {
    /// This is `before` after a click while the palette is open.
    pub open spec fn clicks_palette(
        &self,
        before: EditorView,
        at: Spot,
        parts: PaletteParts,
        now: u64,
    ) -> bool {
        let scroll = before.state.fields.palette_scroll;
        if click_closes(parts.rect, at) {
            self.shows(before, before.state.without_palette(), Seq::empty(), now)
        } else if at.y < parts.rect.y + PALETTE_HEADER {
            self.shows(
                before,
                match before.state.fields.palette {
                    Some(palette) => before.state.with_palette(
                        Some(
                            PaletteState {
                                query: field_at(palette.query, parts.caret),
                                ..palette
                            },
                        ),
                        scroll,
                    ),
                    None => before.state,
                },
                Seq::empty(),
                now,
            )
        } else if before.state.fields.palette is None {
            *self == before
        } else {
            match clicked_pick(scroll, parts) {
                None => *self == before,
                Some(pick) => self.marks(
                    before,
                    before.state.without_palette(),
                    before.pumping(now) + clicked_work(pick),
                ),
            }
        }
    }

    /// A click while the palette is open.
    pub fn palette_click(&mut self, at: Spot, parts: &PaletteParts, now: u64)
        requires
            old(self).state.wf(),
            parts.rect.near(),
        ensures
            final(self).state.wf(),
            final(self).clicks_palette(*old(self), at, *parts, now),
    {
        let rect = parts.rect;
        if !rect.contains(at.x, at.y) || (at.x >= rect.x + rect.width - CLOSE_WIDTH && at.y < rect.y
            + CLOSE_HEIGHT) {
            self.close_palette(now);
            return;
        }
        if at.y < rect.y + PALETTE_HEADER {
            if let Some(palette) = &mut self.state.fields.palette {
                if let Some(caret) = parts.caret {
                    palette.query.cursor = caret;
                    palette.query.anchor = caret;
                }
            }
            self.show(now);
            assert(self.effects@ =~= old(self).effects@ + (Seq::<Effect>::empty() + old(
                self,
            ).pumping(now)));
            return;
        }
        if self.state.fields.palette.is_none() {
            return;
        }
        let row = match parts.row {
            Some(row) => row,
            None => {
                return;
            },
        };
        let count = parts.picks.len();
        let max: usize = if count > parts.visible {
            count - parts.visible
        } else {
            0
        };
        let first = if self.state.fields.palette_scroll < max {
            self.state.fields.palette_scroll
        } else {
            max
        };
        if row >= count - first {
            return;
        }
        let pick = copy_pick(&parts.picks[first + row]);
        assert(Some(pick) == clicked_pick(old(self).state.fields.palette_scroll, *parts));
        self.close_palette(now);
        self.take_clicked(pick);
        assert(self.effects@ =~= old(self).effects@ + (old(self).pumping(now) + clicked_work(
            pick,
        )));
    }

    /// Acts on a clicked row.
    fn take_clicked(&mut self, pick: Pick)
        ensures
            final(self).becomes(*old(self), old(self).state, clicked_work(pick)),
    {
        let ghost chosen = pick;
        match pick {
            Pick::Branch(name) => self.effects.push(Effect::ChooseBranch(name, false)),
            Pick::NewBranch(name) => self.effects.push(Effect::ChooseBranch(name, true)),
            Pick::Symbol(path, line) => self.effects.push(Effect::GoToSymbol(path, line)),
            Pick::Command(action) => self.effects.push(Effect::RunCommand(action)),
            Pick::File(path) => {
                let again = path.clone();
                self.effects.push(Effect::LoadPath(path));
                self.effects.push(Effect::SyncTitle);
                self.effects.push(Effect::Run(Task::Reparse));
                self.effects.push(Effect::RevealInTree(again));
                self.effects.push(Effect::Run(Task::Show));
            },
        }
        assert(self.effects@ =~= old(self).effects@ + clicked_work(chosen));
    }
}

/// A copy of a pick.
fn copy_pick(pick: &Pick) -> (copy: Pick)
    ensures
        copy == *pick,
{
    match pick {
        Pick::Branch(name) => Pick::Branch(name.clone()),
        Pick::NewBranch(name) => Pick::NewBranch(name.clone()),
        Pick::Symbol(path, line) => Pick::Symbol(path.clone(), *line),
        Pick::Command(action) => Pick::Command(action.clone()),
        Pick::File(path) => Pick::File(path.clone()),
    }
}

/// `from` moved by `by`, no less than zero and no more than `most`.
pub open spec fn moved_within(from: int, by: int, most: int) -> int {
    let to = if from + by < 0 {
        0
    } else {
        from + by
    };
    if to > most {
        most
    } else {
        to
    }
}

/// See [`moved_within`].
fn move_within(from: usize, by: i64, most: usize) -> (to: usize)
    requires
        by > i64::MIN,
    ensures
        to == moved_within(from as int, by as int, most as int),
{
    if by < 0 {
        let down = (-by) as u64;
        let to = if from as u64 <= down {
            0
        } else {
            from - down as usize
        };
        if to > most {
            most
        } else {
            to
        }
    } else {
        let up = by as u64;
        if from >= most || up >= (most - from) as u64 {
            most
        } else {
            from + up as usize
        }
    }
}

impl EditorView {
    /// The wheel scrolls the palette's list by `rows`; `count` are listed and
    /// `visible` drawn.
    pub fn palette_wheel_by(&mut self, rows: i64, count: usize, visible: usize, now: u64)
        requires
            old(self).state.wf(),
            rows > i64::MIN,
        ensures
            final(self).state.wf(),
            ({
                let s = old(self).state;
                let max = palette::max_scroll(count as int, visible as int);
                let to = moved_within(
                    first_shown(s.fields.palette_scroll, count as int, visible as int),
                    rows as int,
                    max,
                );
                if s.fields.palette is None || to == s.fields.palette_scroll {
                    *final(self) == *old(self)
                } else {
                    final(self).shows(
                        *old(self),
                        s.with_palette(s.fields.palette, to as usize),
                        Seq::empty(),
                        now,
                    )
                }
            }),
    {
        if self.state.fields.palette.is_none() {
            return;
        }
        let max: usize = if count > visible {
            count - visible
        } else {
            0
        };
        let first = if self.state.fields.palette_scroll < max {
            self.state.fields.palette_scroll
        } else {
            max
        };
        let to = move_within(first, rows, max);
        if to == self.state.fields.palette_scroll {
            return;
        }
        self.state.fields.palette_scroll = to;
        self.show(now);
        assert(self.effects@ =~= old(self).effects@ + (Seq::<Effect>::empty() + old(self).pumping(
            now,
        )));
    }
}

/// What the wheel scrolls.
#[derive(Clone, Copy, PartialEq, Eq, Structural, Debug)]
pub enum Wheel {
    Palette,
    Terminal,
    Review,
    Git,
    /// What lies under the pointer in the editor or the tree.
    Window,
}

/// Whose wheel it is. The palette is modal: the wheel scrolls its list, and
/// never the document or terminal behind it.
pub open spec fn wheel_of(s: State, chrome: Chrome, at: Spot) -> Wheel {
    if s.fields.palette is Some {
        Wheel::Palette
    } else if frame::lands_in(chrome.terminal, at.x, at.y) {
        Wheel::Terminal
    } else if chrome.text.has(at.x, at.y) && s.reviewing() {
        Wheel::Review
    } else if s.git.open && chrome.sidebar is Some && (frame::lands_in(chrome.sidebar, at.x, at.y)
        || chrome.text.has(at.x, at.y)) {
        Wheel::Git
    } else {
        Wheel::Window
    }
}

/// Which way the wheel turned.
#[derive(Clone, Copy, PartialEq, Eq, Structural, Debug)]
pub enum Turn {
    Up,
    Down,
    Still,
}

/// How far back the terminal is scrolled after a turn, of `history` lines.
pub open spec fn scrolled_back(back: usize, turn: Turn, history: usize) -> int {
    match turn {
        Turn::Up => if back + 3 < history {
            back + 3
        } else {
            history as int
        },
        Turn::Down => if back >= 3 {
            back - 3
        } else {
            0
        },
        Turn::Still => back as int,
    }
}

/// See [`wheel_of`].
fn wheel_for(s: &State, chrome: &Chrome, at: Spot) -> (wheel: Wheel)
    requires
        s.wf(),
    ensures
        wheel == wheel_of(*s, *chrome, at),
{
    if s.fields.palette.is_some() {
        return Wheel::Palette;
    }
    if lands(&chrome.terminal, at.x, at.y) {
        return Wheel::Terminal;
    }
    let in_text = chrome.text.contains(at.x, at.y);
    if in_text && active_review(s) {
        return Wheel::Review;
    }
    if s.git.open && chrome.sidebar.is_some() && (lands(&chrome.sidebar, at.x, at.y) || in_text) {
        return Wheel::Git;
    }
    Wheel::Window
}

/// How many rows a turn scrolls by.
pub open spec fn turned_by(turn: Turn) -> i64 {
    if turn is Down {
        3
    } else {
        (-3) as i64
    }
}

impl EditorView {
    /// This is `before` with `wheel` turned.
    pub open spec fn turns_wheel(
        &self,
        before: EditorView,
        wheel: Wheel,
        turn: Turn,
        history: usize,
        in_list: bool,
        now: u64,
    ) -> bool {
        let s = before.state;
        match wheel {
            Wheel::Palette => self.becomes(before, s, seq![Effect::Run(Task::PaletteWheel)]),
            Wheel::Terminal => self.shows(
                before,
                s.with_terminal(
                    TerminalPanel {
                        back: scrolled_back(s.terminal.back, turn, history) as usize,
                        ..s.terminal
                    },
                ),
                Seq::empty(),
                now,
            ),
            Wheel::Review => if turn is Still {
                *self == before
            } else {
                self.shows(before, s, seq![Effect::ScrollReview(turned_by(turn))], now)
            },
            Wheel::Git => self.shows(
                before,
                s,
                seq![
                    Effect::ScrollGit(turned_by(turn), in_list),
                    Effect::InvalidateCursorRects,
                ],
                now,
            ),
            Wheel::Window => *self == before,
        }
    }

    /// The wheel turns. `history` is how many lines of the terminal session
    /// are above its screen and `in_list` whether the pointer is over the list
    /// of changes. Returns whose wheel it is; the window's own is
    /// [`EditorView::scroll_at`].
    pub fn scroll_wheel(
        &mut self,
        at: Spot,
        turn: Turn,
        chrome: &Chrome,
        history: usize,
        in_list: bool,
        now: u64,
    ) -> (wheel: Wheel)
        requires
            old(self).state.wf(),
        ensures
            final(self).state.wf(),
            wheel == wheel_of(old(self).state, *chrome, at),
            final(self).turns_wheel(*old(self), wheel, turn, history, in_list, now),
    {
        let wheel = wheel_for(&self.state, chrome, at);
        let by: i64 = if turn == Turn::Down {
            3
        } else {
            -3
        };
        match wheel {
            Wheel::Palette => {
                self.ask(Effect::Run(Task::PaletteWheel));
            },
            Wheel::Terminal => {
                self.turn_terminal(turn, history, now);
            },
            Wheel::Review => {
                if turn != Turn::Still {
                    self.ask(Effect::ScrollReview(by));
                    self.show(now);
                    assert(self.effects@ =~= old(self).effects@ + (seq![Effect::ScrollReview(by)]
                        + old(self).pumping(now)));
                }
            },
            Wheel::Git => {
                self.effects.push(Effect::ScrollGit(by, in_list));
                self.effects.push(Effect::InvalidateCursorRects);
                let ghost done = seq![
                    Effect::ScrollGit(by, in_list),
                    Effect::InvalidateCursorRects,
                ];
                assert(self.effects@ =~= old(self).effects@ + done);
                self.show(now);
                assert(self.effects@ =~= old(self).effects@ + (done + old(self).pumping(now)));
            },
            Wheel::Window => {},
        }
        wheel
    }

    /// Scrolls the terminal through what has gone off its screen.
    fn turn_terminal(&mut self, turn: Turn, history: usize, now: u64)
        requires
            old(self).state.wf(),
        ensures
            final(self).state.wf(),
            final(self).turns_wheel(*old(self), Wheel::Terminal, turn, history, false, now),
    {
        let back = self.state.terminal.back;
        self.state.terminal.back = match turn {
            Turn::Up => if back < history && history - back > 3 {
                back + 3
            } else {
                history
            },
            Turn::Down => if back >= 3 {
                back - 3
            } else {
                0
            },
            Turn::Still => back,
        };
        self.show(now);
        assert(self.effects@ =~= old(self).effects@ + (Seq::<Effect>::empty() + old(self).pumping(
            now,
        )));
    }
}

/// What scrolls under the pointer in the rest of the window.
#[derive(Clone, Copy, PartialEq, Eq, Structural, Debug)]
pub enum Scrolled {
    Tabs,
    /// The text, by points.
    Smooth,
    /// The rendered document, by blocks.
    Rendering,
    Tree,
    Text,
}

/// What scrolls. A trackpad moves the text itself by points; wheel notches,
/// the sidebar and the rendered blocks go a whole line at a time.
pub open spec fn scrolls_under(s: State, chrome: Chrome, at: Spot, precise: bool) -> Scrolled {
    let side = frame::lands_in(chrome.sidebar, at.x, at.y);
    if chrome.tabs.has(at.x, at.y) {
        Scrolled::Tabs
    } else if precise && !side && !s.rendered() {
        Scrolled::Smooth
    } else if s.rendered() && !side {
        Scrolled::Rendering
    } else if side {
        Scrolled::Tree
    } else {
        Scrolled::Text
    }
}

/// How much there is to scroll: whole tabs, columns and lines, as the pointer's
/// deltas add up, and the last block of a rendered document.
#[derive(Clone, Copy, PartialEq, Eq, Structural, Debug)]
pub struct Amount {
    pub tabs: i64,
    pub columns: i64,
    pub lines: i64,
    pub last_block: usize,
}

impl EditorView {
    /// Makes what is under the pointer what scrolls. Scrolling another pane
    /// scrolls it, which means focusing it: there is one scroll position per
    /// focused document.
    pub fn focus_scrolled(&mut self, hit: Option<Hit>, now: u64)
        requires
            old(self).state.wf(),
        ensures
            final(self).state.wf(),
            match hit {
                Some(Hit::Pane(index)) => if index != old(self).state.focused_pane && index
                    <= old(self).state.panes@.len() {
                    final(self).focuses(*old(self), index as int, now)
                } else {
                    *final(self) == *old(self)
                },
                _ => *final(self) == *old(self),
            },
    {
        if let Some(Hit::Pane(index)) = hit {
            self.focus_pane(index, now);
        }
    }

    /// Scrolls whatever is under the pointer: the tab strip, the sidebar, the
    /// rendered blocks or the text. `precise` is a trackpad. What is under the
    /// pointer has the focus; see [`EditorView::focus_scrolled`].
    pub fn scroll_at(&mut self, at: Spot, chrome: &Chrome, precise: bool, by: Amount, now: u64) -> (
        scrolled: Scrolled)
        requires
            old(self).state.wf(),
            by.tabs > i64::MIN,
            by.lines > i64::MIN,
        ensures
            final(self).state.wf(),
            scrolled == scrolls_under(old(self).state, *chrome, at, precise),
            final(self).scrolls(*old(self), scrolled, by, now),
    {
        let side = lands(&chrome.sidebar, at.x, at.y);
        let rendered = self.state.pane.preview.is_some() && default_preview(
            self.state.pane.docs.active(),
        ).is_some();
        let scrolled = if chrome.tabs.contains(at.x, at.y) {
            Scrolled::Tabs
        } else if precise && !side && !rendered {
            Scrolled::Smooth
        } else if rendered && !side {
            Scrolled::Rendering
        } else if side {
            Scrolled::Tree
        } else {
            Scrolled::Text
        };
        let ghost mut done = Seq::<Effect>::empty();
        match scrolled {
            Scrolled::Tabs => {
                if by.tabs == 0 {
                    return scrolled;
                }
                let last = self.state.pane.docs.len() - 1;
                self.state.pane.tab_scroll = move_within(
                    self.state.pane.tab_scroll,
                    by.tabs,
                    last,
                );
            },
            Scrolled::Smooth => {
                self.effects.push(Effect::ScrollSmooth);
                self.effects.push(Effect::ScrollColumns(by.columns));
                proof {
                    done = seq![Effect::ScrollSmooth, Effect::ScrollColumns(by.columns)];
                }
            },
            _ => {
                if by.columns == 0 && by.lines == 0 {
                    return scrolled;
                }
                match scrolled {
                    Scrolled::Rendering => {
                        let current = match self.state.pane.preview {
                            Some(at) => at,
                            None => 0,
                        };
                        self.state.pane.preview = Some(
                            move_within(current, by.lines, by.last_block),
                        );
                    },
                    Scrolled::Tree => {
                        self.effects.push(Effect::ScrollTree(by.lines));
                        proof {
                            done = seq![Effect::ScrollTree(by.lines)];
                        }
                    },
                    _ => {
                        self.effects.push(Effect::ScrollLines(by.lines));
                        self.effects.push(Effect::ScrollColumns(by.columns));
                        proof {
                            done = seq![
                                Effect::ScrollLines(by.lines),
                                Effect::ScrollColumns(by.columns),
                            ];
                        }
                    },
                }
            },
        }
        assert(self.effects@ =~= old(self).effects@ + done);
        self.show(now);
        assert(self.effects@ =~= old(self).effects@ + (done + old(self).pumping(now)));
        scrolled
    }

    /// This is `before` with something scrolled.
    pub open spec fn scrolls(
        &self,
        before: EditorView,
        scrolled: Scrolled,
        by: Amount,
        now: u64,
    ) -> bool {
        let s = before.state;
        let still = by.columns == 0 && by.lines == 0;
        match scrolled {
            Scrolled::Tabs => if by.tabs == 0 {
                *self == before
            } else {
                self.shows(
                    before,
                    State {
                        pane: PaneStore {
                            tab_scroll: moved_within(
                                s.pane.tab_scroll as int,
                                by.tabs as int,
                                s.pane.docs.list@.len() - 1,
                            ) as usize,
                            ..s.pane
                        },
                        ..s
                    },
                    Seq::empty(),
                    now,
                )
            },
            Scrolled::Smooth => self.shows(
                before,
                s,
                seq![Effect::ScrollSmooth, Effect::ScrollColumns(by.columns)],
                now,
            ),
            Scrolled::Rendering => if still {
                *self == before
            } else {
                self.shows(
                    before,
                    State {
                        pane: PaneStore {
                            preview: Some(
                                moved_within(
                                    s.pane.preview->0 as int,
                                    by.lines as int,
                                    by.last_block as int,
                                ) as usize,
                            ),
                            ..s.pane
                        },
                        ..s
                    },
                    Seq::empty(),
                    now,
                )
            },
            Scrolled::Tree => if still {
                *self == before
            } else {
                self.shows(before, s, seq![Effect::ScrollTree(by.lines)], now)
            },
            Scrolled::Text => if still {
                *self == before
            } else {
                self.shows(
                    before,
                    s,
                    seq![Effect::ScrollLines(by.lines), Effect::ScrollColumns(by.columns)],
                    now,
                )
            },
        }
    }
}

/// Scrolling never leaves the range: the list ends where it ends, whatever the
/// wheel says.
pub proof fn scrolling_stays_in_range(from: int, by: int, most: int)
    requires
        0 <= most,
    ensures
        0 <= moved_within(from, by, most) <= most,
        0 <= from + by <= most ==> moved_within(from, by, most) == from + by,
{
}

} // verus!
