//! Where everything in the window is, and what the pointer can land on.
//!
//! All measures are hundredths of a point.

use crate::find::RESULT_ROWS;
use crate::focus::active_review;
use crate::panes::pane_count;
use crate::sidebar::SidebarEdit;
use crate::state::{EditorView, State, TabHit, REACH};
use vstd::prelude::*;

verus! {

/// Bounds on the sidebar, so a drag cannot make it useless or swallow the
/// editor.
pub const SIDEBAR_MIN: i32 = 14_000;

/// See [`SIDEBAR_MIN`].
pub const SIDEBAR_MAX: i32 = 60_000;

/// How close to a divider counts as grabbing it.
pub const DIVIDER_GRAB: i32 = 500;

/// A rectangle.
#[derive(Clone, Copy, PartialEq, Eq, Structural, Debug)]
pub struct Rect {
    pub x: i32,
    pub y: i32,
    pub width: i32,
    pub height: i32,
}

/// Something the pointer can land on.
#[derive(Clone, Copy, PartialEq, Eq, Structural, Debug)]
pub enum Hit {
    ToolbarSidebar,
    ToolbarProject,
    ToolbarSearch,
    ToolbarTerminal,
    TerminalDivider,
    SidebarDivider,
    SidebarExplorer,
    SidebarSourceControl,
    SidebarAction(usize),
    SidebarRow(usize),
    Pane(usize),
    TabClose(usize),
    Tab(usize),
    TabStrip,
    ResponseSegment(usize),
    ReviewAccept,
    ReviewReject,
    Find,
    TerminalClose(usize),
    TerminalTab(usize),
    TerminalNew,
    Terminal,
    Text,
    Status,
}

/// A part of the window, and what it is.
#[derive(Clone, Copy, PartialEq, Eq, Structural, Debug)]
pub struct Region {
    pub hit: Hit,
    pub rect: Rect,
}

/// A pane without the keyboard: its place among the panes, and where it is.
#[derive(Clone, Copy, PartialEq, Eq, Structural, Debug)]
pub struct OtherPane {
    pub index: usize,
    pub whole: Rect,
}

/// The window, taken apart.
pub struct Chrome {
    pub toolbar: Rect,
    pub tabs: Rect,
    pub text: Rect,
    pub status: Rect,
    pub sidebar: Option<Rect>,
    /// The strip over a response or a review.
    pub response: Option<Rect>,
    pub find: Option<Rect>,
    pub terminal: Option<Rect>,
    pub others: Vec<OtherPane>,
}

/// What the window is divided into, before it is measured out.
#[derive(Clone, Copy, PartialEq, Eq, Structural, Debug)]
pub struct ChromePlan {
    /// How wide the sidebar is, when it shows.
    pub sidebar: Option<i32>,
    /// The rows of the find bar.
    pub find_rows: usize,
    /// Whether the text has a strip over it.
    pub response: bool,
    pub panes: usize,
    pub focused: usize,
    /// How tall the terminal panel is, when it is open.
    pub terminal: Option<i32>,
}

/// A terminal session's tab and its close button.
#[derive(Clone, Copy, PartialEq, Eq, Structural, Debug)]
pub struct SessionTab {
    pub tab: Rect,
    pub close: Rect,
}

/// The smaller parts, as they were drawn.
pub struct Parts {
    pub toolbar_sidebar: Rect,
    pub toolbar_project: Rect,
    pub toolbar_search: Rect,
    /// Without a width when there is no room for it.
    pub toolbar_terminal: Rect,
    pub explorer: Rect,
    pub source_control: Rect,
    pub actions: Vec<Rect>,
    /// How many rows of the tree fit.
    pub visible_rows: usize,
    /// The height over the first row of the tree.
    pub header_height: i32,
    pub row_height: i32,
    /// The parts of a reply.
    pub segments: Vec<Rect>,
    pub accept: Rect,
    pub reject: Rect,
    pub sessions: Vec<SessionTab>,
    pub new_session: Rect,
    /// The screen of the terminal, inside its panel.
    pub screen: Rect,
}

impl Rect {
    /// Whether the point lies in the rectangle.
    pub open spec fn has(&self, x: i32, y: i32) -> bool {
        &&& self.x <= x < self.x + self.width
        &&& self.y <= y < self.y + self.height
    }

    /// See [`Rect::has`].
    pub fn contains(&self, x: i32, y: i32) -> (r: bool)
        ensures
            r == self.has(x, y),
    {
        self.x <= x && (x as i64) < self.x as i64 + self.width as i64 && self.y <= y && (y as i64)
            < self.y as i64 + self.height as i64
    }

    /// Whether the rectangle is within [`REACH`].
    pub open spec fn near(&self) -> bool {
        &&& -REACH <= self.x <= REACH
        &&& -REACH <= self.y <= REACH
        &&& 0 <= self.width <= REACH
        &&& 0 <= self.height <= REACH
    }
}

/// Whether the point lies in a rectangle that may not be there.
pub open spec fn lands_in(rect: Option<Rect>, x: i32, y: i32) -> bool {
    rect matches Some(rect) && rect.has(x, y)
}

/// See [`lands_in`].
pub fn lands(rect: &Option<Rect>, x: i32, y: i32) -> (r: bool)
    ensures
        r == lands_in(*rect, x, y),
{
    match rect {
        Some(rect) => rect.contains(x, y),
        None => false,
    }
}

/// `value` within the sidebar's bounds.
pub open spec fn sidebar_width(value: int) -> int {
    if value < SIDEBAR_MIN {
        SIDEBAR_MIN as int
    } else if value > SIDEBAR_MAX {
        SIDEBAR_MAX as int
    } else {
        value
    }
}

/// See [`sidebar_width`].
pub fn clamp_sidebar(value: i32) -> (width: i32)
    ensures
        width == sidebar_width(value as int),
{
    if value < SIDEBAR_MIN {
        SIDEBAR_MIN
    } else if value > SIDEBAR_MAX {
        SIDEBAR_MAX
    } else {
        value
    }
}

/// The rows of the find bar: find and replace, and the results of a search in
/// the project.
pub open spec fn find_rows(state: State) -> int {
    match state.fields.find {
        None => 0,
        Some(bar) => 2 + (if bar.project {
            if bar.results@.len() < RESULT_ROWS {
                bar.results@.len() as int
            } else {
                RESULT_ROWS as int
            }
        } else {
            0
        }),
    }
}

/// What the window is divided into.
pub open spec fn is_plan_of(plan: ChromePlan, state: State) -> bool {
    &&& plan.sidebar == (if state.side.open {
        Some(sidebar_width(state.side.width as int) as i32)
    } else {
        None
    })
    &&& plan.find_rows == find_rows(state)
    &&& plan.response == (state.http.responses@.contains_key(state.pane.docs.front().id)
        || state.reviewing())
    &&& plan.panes == state.panes@.len() + 1
    &&& plan.focused == state.focused_pane
    &&& plan.terminal == (if state.terminal.open {
        Some(state.terminal.height)
    } else {
        None
    })
}

/// Shared layout for drawing and interaction.
pub fn chrome_of(state: &State) -> (plan: ChromePlan)
    requires
        state.wf(),
    ensures
        is_plan_of(plan, *state),
{
    let find_rows = match &state.fields.find {
        None => 0,
        Some(bar) => if bar.project {
            if bar.results.len() < RESULT_ROWS {
                2 + bar.results.len()
            } else {
                2 + RESULT_ROWS
            }
        } else {
            2
        },
    };
    ChromePlan {
        sidebar: if state.side.open {
            Some(clamp_sidebar(state.side.width))
        } else {
            None
        },
        find_rows,
        response: state.http.responses.contains_key(&state.pane.docs.active().id) || active_review(
            state,
        ),
        panes: pane_count(state),
        focused: state.focused_pane,
        terminal: if state.terminal.open {
            Some(state.terminal.height)
        } else {
            None
        },
    }
}

/// The size of a character cell.
#[derive(Clone, Copy, PartialEq, Eq, Structural, Debug)]
pub struct Metrics {
    pub line_height: i32,
    pub advance: i32,
}

/// How many whole steps fit into `room`.
pub open spec fn whole_steps(room: int, step: int) -> int {
    if room <= 0 {
        0
    } else {
        room / step
    }
}

impl EditorView {
    /// Where everything in the window is, right now. The only place that is
    /// worked out: drawing, hit-testing and scrolling all read this.
    pub fn chrome(&self) -> (plan: ChromePlan)
        requires
            self.state.wf(),
        ensures
            is_plan_of(plan, self.state),
    {
        chrome_of(&self.state)
    }

    /// Text area size in whole rows and columns, which is what the buffer
    /// needs to keep the cursor on screen in both axes. `gutter` is how wide
    /// the gutter beside the text is.
    pub fn grid(&self, text: Rect, metrics: Metrics, gutter: i32) -> (grid: (usize, usize))
        requires
            metrics.line_height > 0,
            metrics.advance > 0,
        ensures
            grid.0 == whole_steps(text.height as int, metrics.line_height as int),
            grid.1 == whole_steps(text.width - gutter, metrics.advance as int),
    {
        let rows = if text.height <= 0 {
            0
        } else {
            (text.height / metrics.line_height) as usize
        };
        let room = text.width as i64 - gutter as i64;
        let columns = if room <= 0 {
            0
        } else {
            assert(0 <= room / metrics.advance as i64 <= room) by (nonlinear_arith)
                requires
                    room > 0,
                    metrics.advance > 0,
            ;
            (room / metrics.advance as i64) as u32 as usize
        };
        (rows, columns)
    }
}

/// The parts of the toolbar.
pub open spec fn toolbar_regions(parts: Parts) -> Seq<Region> {
    seq![
        Region { hit: Hit::ToolbarSidebar, rect: parts.toolbar_sidebar },
        Region { hit: Hit::ToolbarProject, rect: parts.toolbar_project },
        Region { hit: Hit::ToolbarSearch, rect: parts.toolbar_search },
    ] + (if parts.toolbar_terminal.width > 0 {
        seq![Region { hit: Hit::ToolbarTerminal, rect: parts.toolbar_terminal }]
    } else {
        Seq::empty()
    })
}

/// The band along the top of the terminal panel. Before the editor's regions,
/// which the band overlaps by half.
pub open spec fn terminal_band(terminal: Option<Rect>) -> Seq<Region> {
    match terminal {
        Some(rect) => seq![
            Region {
                hit: Hit::TerminalDivider,
                rect: Rect {
                    y: (rect.y - DIVIDER_GRAB) as i32,
                    height: (DIVIDER_GRAB * 2) as i32,
                    ..rect
                },
            },
        ],
        None => Seq::empty(),
    }
}

/// Whether a name being typed takes a row of its own.
pub open spec fn inserts_row(edit: Option<SidebarEdit>) -> bool {
    edit matches Some(edit) && !(edit.kind is Rename)
}

/// The row of the tree that is drawn at place `visible`, if one is: a name
/// being typed stands in a row that is no row of the tree, and shifts those
/// under it when it is inserted.
pub open spec fn row_at(edit: Option<SidebarEdit>, visible: int) -> Option<int> {
    match edit {
        None => Some(visible),
        Some(e) => if e.row == visible {
            None
        } else if inserts_row(edit) && visible > e.row {
            Some(visible - 1)
        } else {
            Some(visible)
        },
    }
}

/// The rows of the tree drawn at the places from `first` to `end`.
pub open spec fn row_regions(
    edit: Option<SidebarEdit>,
    rect: Rect,
    parts: Parts,
    first: int,
    end: int,
) -> Seq<Region>
    decreases end - first,
{
    if end <= first {
        Seq::empty()
    } else {
        let before = row_regions(edit, rect, parts, first, end - 1);
        match row_at(edit, end - 1) {
            None => before,
            Some(index) => before.push(
                Region {
                    hit: Hit::SidebarRow(index as usize),
                    rect: Rect {
                        x: rect.x,
                        y: (rect.y + parts.header_height + (end - 1 - first) * parts.row_height) as i32,
                        width: rect.width,
                        height: parts.row_height,
                    },
                },
            ),
        }
    }
}

/// How many rows the tree takes, a name being typed with them.
pub open spec fn row_count(state: State) -> int {
    state.side.tree.rows@.len() + (if inserts_row(state.fields.sidebar_edit) {
        1int
    } else {
        0
    })
}

/// The first place shown.
pub open spec fn first_row(state: State) -> int {
    let total = row_count(state);
    let last = if total == 0 {
        0
    } else {
        total - 1
    };
    if state.side.tree.scroll < last {
        state.side.tree.scroll as int
    } else {
        last
    }
}

/// One past the last place shown.
pub open spec fn last_row(state: State, visible_rows: int) -> int {
    let end = first_row(state) + visible_rows;
    if end < row_count(state) {
        end
    } else {
        row_count(state)
    }
}

/// The buttons over the tree.
pub open spec fn action_regions(actions: Seq<Rect>) -> Seq<Region> {
    Seq::new(actions.len(), |i: int| Region { hit: Hit::SidebarAction(i as usize), rect: actions[i] })
}

/// The sidebar.
pub open spec fn sidebar_regions(state: State, sidebar: Option<Rect>, parts: Parts) -> Seq<Region> {
    match sidebar {
        None => Seq::empty(),
        Some(rect) => seq![
            Region {
                hit: Hit::SidebarDivider,
                rect: Rect {
                    x: (rect.x + rect.width - DIVIDER_GRAB) as i32,
                    y: rect.y,
                    width: (DIVIDER_GRAB * 2) as i32,
                    height: rect.height,
                },
            },
            Region { hit: Hit::SidebarExplorer, rect: parts.explorer },
            Region { hit: Hit::SidebarSourceControl, rect: parts.source_control },
        ] + (if state.git.open {
            Seq::empty()
        } else {
            action_regions(parts.actions@) + row_regions(
                state.fields.sidebar_edit,
                rect,
                parts,
                first_row(state),
                last_row(state, parts.visible_rows as int),
            )
        }),
    }
}

/// The panes without the keyboard.
pub open spec fn pane_regions(others: Seq<OtherPane>) -> Seq<Region> {
    Seq::new(others.len(), |i: int| Region { hit: Hit::Pane(others[i].index), rect: others[i].whole })
}

/// The regions of one tab: its close cross, which only the active tab draws,
/// and the tab.
pub open spec fn tab_region(hit: TabHit, active: usize, tabs: Rect) -> Seq<Region> {
    (if hit.index == active {
        seq![
            Region {
                hit: Hit::TabClose(hit.index),
                rect: Rect { x: hit.close_x0, width: (hit.close_x1 - hit.close_x0) as i32, ..tabs },
            },
        ]
    } else {
        Seq::empty()
    }).push(
        Region {
            hit: Hit::Tab(hit.index),
            rect: Rect { x: hit.x0, width: (hit.x1 - hit.x0) as i32, ..tabs },
        },
    )
}

/// The tabs.
pub open spec fn tab_regions(hits: Seq<TabHit>, active: usize, tabs: Rect) -> Seq<Region>
    decreases hits.len(),
{
    if hits.len() == 0 {
        Seq::empty()
    } else {
        tab_regions(hits.drop_last(), active, tabs) + tab_region(hits.last(), active, tabs)
    }
}

/// The parts of a reply.
pub open spec fn segment_regions(segments: Seq<Rect>) -> Seq<Region> {
    Seq::new(
        segments.len(),
        |i: int| Region { hit: Hit::ResponseSegment(i as usize), rect: segments[i] },
    )
}

/// The strip over the text.
pub open spec fn strip_regions(state: State, response: Option<Rect>, parts: Parts) -> Seq<Region> {
    let id = state.pane.docs.front().id;
    if response is None {
        Seq::empty()
    } else {
        (if state.http.responses@.contains_key(id) {
            segment_regions(parts.segments@)
        } else {
            Seq::empty()
        }) + (if state.awaits_review(id) {
            seq![
                Region { hit: Hit::ReviewAccept, rect: parts.accept },
                Region { hit: Hit::ReviewReject, rect: parts.reject },
            ]
        } else {
            Seq::empty()
        })
    }
}

/// The tabs of the terminal panel.
pub open spec fn session_regions(sessions: Seq<SessionTab>) -> Seq<Region>
    decreases sessions.len(),
{
    if sessions.len() == 0 {
        Seq::empty()
    } else {
        let at = (sessions.len() - 1) as usize;
        session_regions(sessions.drop_last()) + seq![
            Region { hit: Hit::TerminalClose(at), rect: sessions.last().close },
            Region { hit: Hit::TerminalTab(at), rect: sessions.last().tab },
        ]
    }
}

/// The terminal panel. The screen first, so offsets in it are rows and
/// columns; the padding around it is the terminal too.
pub open spec fn panel_regions(terminal: Option<Rect>, parts: Parts) -> Seq<Region> {
    match terminal {
        None => Seq::empty(),
        Some(rect) => session_regions(parts.sessions@) + seq![
            Region { hit: Hit::TerminalNew, rect: parts.new_session },
            Region { hit: Hit::Terminal, rect: parts.screen },
            Region { hit: Hit::Terminal, rect },
        ],
    }
}

/// The find bar.
pub open spec fn find_regions(find: Option<Rect>) -> Seq<Region> {
    match find {
        Some(rect) => seq![Region { hit: Hit::Find, rect }],
        None => Seq::empty(),
    }
}

/// Every rectangle the pointer can land on, in hit-testing order.
pub open spec fn regions_of(state: State, chrome: Chrome, parts: Parts) -> Seq<Region> {
    toolbar_regions(parts) + terminal_band(chrome.terminal) + sidebar_regions(
        state,
        chrome.sidebar,
        parts,
    ) + pane_regions(chrome.others@) + tab_regions(
        state.pane.tab_hits@,
        state.pane.docs.active,
        chrome.tabs,
    ) + seq![Region { hit: Hit::TabStrip, rect: chrome.tabs }] + strip_regions(
        state,
        chrome.response,
        parts,
    ) + find_regions(chrome.find) + panel_regions(chrome.terminal, parts) + seq![
        Region { hit: Hit::Text, rect: chrome.text },
        Region { hit: Hit::Status, rect: chrome.status },
    ]
}

/// Whether everything is near enough for its measures to be added.
pub open spec fn measured(state: State, chrome: Chrome, parts: Parts) -> bool {
    &&& (chrome.terminal matches Some(rect) ==> rect.near())
    &&& (chrome.sidebar matches Some(rect) ==> rect.near())
    &&& 0 <= parts.header_height <= REACH
    &&& 0 <= parts.row_height
    &&& parts.visible_rows * parts.row_height <= REACH
    &&& parts.visible_rows <= REACH
    &&& forall|i: int|
        0 <= i < state.pane.tab_hits@.len() ==> tab_near(#[trigger] state.pane.tab_hits@[i])
    &&& state.side.tree.rows@.len() < usize::MAX
}

/// Whether a tab is within [`REACH`].
pub open spec fn tab_near(hit: TabHit) -> bool {
    &&& -REACH <= hit.x0 <= hit.x1 <= REACH
    &&& -REACH <= hit.close_x0 <= hit.close_x1 <= REACH
}

/// Adds one region.
fn put(list: &mut Vec<Region>, hit: Hit, rect: Rect)
    ensures
        final(list)@ == old(list)@.push(Region { hit, rect }),
{
    list.push(Region { hit, rect });
}

/// See [`sidebar_regions`].
fn push_sidebar(list: &mut Vec<Region>, state: &State, rect: Rect, parts: &Parts)
    requires
        rect.near(),
        0 <= parts.header_height <= REACH,
        0 <= parts.row_height,
        parts.visible_rows * parts.row_height <= REACH,
        parts.visible_rows <= REACH,
        state.side.tree.rows@.len() < usize::MAX,
    ensures
        final(list)@ == old(list)@ + sidebar_regions(*state, Some(rect), *parts),
{
    put(
        list,
        Hit::SidebarDivider,
        Rect {
            x: rect.x + rect.width - DIVIDER_GRAB,
            y: rect.y,
            width: DIVIDER_GRAB * 2,
            height: rect.height,
        },
    );
    put(list, Hit::SidebarExplorer, parts.explorer);
    put(list, Hit::SidebarSourceControl, parts.source_control);
    let ghost head = list@;
    if state.git.open {
        assert(list@ =~= old(list)@ + sidebar_regions(*state, Some(rect), *parts));
        return;
    }
    let mut i: usize = 0;
    while i < parts.actions.len()
        invariant
            i <= parts.actions@.len(),
            list@ == head + action_regions(parts.actions@).take(i as int),
        decreases parts.actions@.len() - i,
    {
        put(list, Hit::SidebarAction(i), parts.actions[i]);
        i += 1;
        assert(list@ =~= head + action_regions(parts.actions@).take(i as int));
    }
    assert(list@ =~= head + action_regions(parts.actions@));
    push_rows(list, state, rect, parts);
    assert(list@ =~= old(list)@ + sidebar_regions(*state, Some(rect), *parts));
}

/// See [`row_regions`].
fn push_rows(list: &mut Vec<Region>, state: &State, rect: Rect, parts: &Parts)
    requires
        rect.near(),
        0 <= parts.header_height <= REACH,
        0 <= parts.row_height,
        parts.visible_rows * parts.row_height <= REACH,
        parts.visible_rows <= REACH,
        state.side.tree.rows@.len() < usize::MAX,
    ensures
        final(list)@ == old(list)@ + row_regions(
            state.fields.sidebar_edit,
            rect,
            *parts,
            first_row(*state),
            last_row(*state, parts.visible_rows as int),
        ),
{
    let ghost edit = state.fields.sidebar_edit;
    let (field, inserted) = match &state.fields.sidebar_edit {
        Some(e) => (Some(e.row), !e.replaces()),
        None => (None, false),
    };
    let total = if inserted {
        state.side.tree.rows.len() + 1
    } else {
        state.side.tree.rows.len()
    };
    let last = if total == 0 {
        0
    } else {
        total - 1
    };
    let first = if state.side.tree.scroll < last {
        state.side.tree.scroll
    } else {
        last
    };
    let end = if parts.visible_rows < total - first {
        first + parts.visible_rows
    } else {
        total
    };
    assert(first == first_row(*state));
    assert(end == last_row(*state, parts.visible_rows as int));
    let mut visible: usize = first;
    assert(list@ =~= old(list)@ + row_regions(edit, rect, *parts, first as int, first as int));
    while visible < end
        invariant
            first <= visible <= end,
            end - first <= parts.visible_rows <= REACH,
            rect.near(),
            0 <= parts.header_height <= REACH,
            0 <= parts.row_height,
            parts.visible_rows * parts.row_height <= REACH,
            edit == state.fields.sidebar_edit,
            field == (match edit {
                Some(e) => Some(e.row),
                None => None,
            }),
            inserted == inserts_row(edit),
            list@ == old(list)@ + row_regions(edit, rect, *parts, first as int, visible as int),
        decreases end - visible,
    {
        let here = match field {
            Some(row) => row == visible,
            None => false,
        };
        assert(row_regions(edit, rect, *parts, first as int, visible + 1) == match row_at(
            edit,
            visible as int,
        ) {
            None => row_regions(edit, rect, *parts, first as int, visible as int),
            Some(index) => row_regions(edit, rect, *parts, first as int, visible as int).push(
                Region {
                    hit: Hit::SidebarRow(index as usize),
                    rect: Rect {
                        x: rect.x,
                        y: (rect.y + parts.header_height + (visible - first) * parts.row_height) as i32,
                        width: rect.width,
                        height: parts.row_height,
                    },
                },
            ),
        });
        if !here {
            let index = match field {
                Some(row) => if inserted && visible > row {
                    visible - 1
                } else {
                    visible
                },
                None => visible,
            };
            let down = (visible - first) as i32;
            proof {
                let v = parts.visible_rows as int;
                let h = parts.row_height as int;
                assert(down * h <= v * h) by (nonlinear_arith)
                    requires
                        0 <= down <= v,
                        0 <= h,
                ;
                assert(0 <= down * h) by (nonlinear_arith)
                    requires
                        0 <= down,
                        0 <= h,
                ;
            }
            put(
                list,
                Hit::SidebarRow(index),
                Rect {
                    x: rect.x,
                    y: rect.y + parts.header_height + down * parts.row_height,
                    width: rect.width,
                    height: parts.row_height,
                },
            );
        }
        visible += 1;
        assert(list@ =~= old(list)@ + row_regions(edit, rect, *parts, first as int, visible as int));
    }
}

/// See [`tab_regions`].
fn push_tabs(list: &mut Vec<Region>, hits: &Vec<TabHit>, active: usize, tabs: Rect)
    requires
        forall|i: int| 0 <= i < hits@.len() ==> tab_near(#[trigger] hits@[i]),
    ensures
        final(list)@ == old(list)@ + tab_regions(hits@, active, tabs),
{
    let mut i: usize = 0;
    assert(hits@.take(0) =~= Seq::empty());
    assert(list@ =~= old(list)@ + tab_regions(hits@.take(0), active, tabs));
    while i < hits.len()
        invariant
            i <= hits@.len(),
            forall|i: int| 0 <= i < hits@.len() ==> tab_near(#[trigger] hits@[i]),
            list@ == old(list)@ + tab_regions(hits@.take(i as int), active, tabs),
        decreases hits@.len() - i,
    {
        let hit = hits[i];
        let ghost before = list@;
        assert(tab_near(hits@[i as int]));
        assert(hits@.take(i + 1).drop_last() =~= hits@.take(i as int));
        if hit.index == active {
            put(
                list,
                Hit::TabClose(hit.index),
                Rect { x: hit.close_x0, width: hit.close_x1 - hit.close_x0, ..tabs },
            );
        }
        put(list, Hit::Tab(hit.index), Rect { x: hit.x0, width: hit.x1 - hit.x0, ..tabs });
        assert(list@ =~= before + tab_region(hit, active, tabs));
        i += 1;
        assert(list@ =~= old(list)@ + tab_regions(hits@.take(i as int), active, tabs));
    }
    assert(hits@.take(hits@.len() as int) =~= hits@);
}

/// See [`strip_regions`].
fn push_strip(list: &mut Vec<Region>, state: &State, parts: &Parts)
    requires
        state.wf(),
    ensures
        final(list)@ == old(list)@ + strip_regions(*state, Some(parts.accept), *parts),
{
    let id = state.pane.docs.active().id;
    if state.http.responses.contains_key(&id) {
        let mut i: usize = 0;
        while i < parts.segments.len()
            invariant
                i <= parts.segments@.len(),
                list@ == old(list)@ + segment_regions(parts.segments@).take(i as int),
            decreases parts.segments@.len() - i,
        {
            put(list, Hit::ResponseSegment(i), parts.segments[i]);
            i += 1;
            assert(list@ =~= old(list)@ + segment_regions(parts.segments@).take(i as int));
        }
        assert(list@ =~= old(list)@ + segment_regions(parts.segments@));
    }
    let waiting = match &state.claude.bridge {
        Some(bridge) => match bridge.reviews.get(id) {
            Some(review) => !review.decided,
            None => false,
        },
        None => false,
    };
    if waiting {
        put(list, Hit::ReviewAccept, parts.accept);
        put(list, Hit::ReviewReject, parts.reject);
    }
    assert(list@ =~= old(list)@ + strip_regions(*state, Some(parts.accept), *parts));
}

/// See [`panel_regions`].
fn push_panel(list: &mut Vec<Region>, rect: Rect, parts: &Parts)
    ensures
        final(list)@ == old(list)@ + panel_regions(Some(rect), *parts),
{
    let mut i: usize = 0;
    assert(parts.sessions@.take(0) =~= Seq::empty());
    assert(list@ =~= old(list)@ + session_regions(parts.sessions@.take(0)));
    while i < parts.sessions.len()
        invariant
            i <= parts.sessions@.len(),
            list@ == old(list)@ + session_regions(parts.sessions@.take(i as int)),
        decreases parts.sessions@.len() - i,
    {
        assert(parts.sessions@.take(i + 1).drop_last() =~= parts.sessions@.take(i as int));
        put(list, Hit::TerminalClose(i), parts.sessions[i].close);
        put(list, Hit::TerminalTab(i), parts.sessions[i].tab);
        i += 1;
        assert(list@ =~= old(list)@ + session_regions(parts.sessions@.take(i as int)));
    }
    assert(parts.sessions@.take(parts.sessions@.len() as int) =~= parts.sessions@);
    put(list, Hit::TerminalNew, parts.new_session);
    put(list, Hit::Terminal, parts.screen);
    put(list, Hit::Terminal, rect);
    assert(list@ =~= old(list)@ + panel_regions(Some(rect), *parts));
}

/// The toolbar and what stands before the editor.
fn push_toolbar(list: &mut Vec<Region>, terminal: &Option<Rect>, parts: &Parts)
    requires
        *terminal matches Some(rect) ==> rect.near(),
    ensures
        final(list)@ == old(list)@ + (toolbar_regions(*parts) + terminal_band(*terminal)),
{
    put(list, Hit::ToolbarSidebar, parts.toolbar_sidebar);
    put(list, Hit::ToolbarProject, parts.toolbar_project);
    put(list, Hit::ToolbarSearch, parts.toolbar_search);
    if parts.toolbar_terminal.width > 0 {
        put(list, Hit::ToolbarTerminal, parts.toolbar_terminal);
    }
    assert(list@ =~= old(list)@ + toolbar_regions(*parts));
    if let Some(rect) = terminal {
        put(
            list,
            Hit::TerminalDivider,
            Rect { y: rect.y - DIVIDER_GRAB, height: DIVIDER_GRAB * 2, ..*rect },
        );
    }
    assert(list@ =~= old(list)@ + (toolbar_regions(*parts) + terminal_band(*terminal)));
}

/// See [`pane_regions`].
fn push_panes(list: &mut Vec<Region>, others: &Vec<OtherPane>)
    ensures
        final(list)@ == old(list)@ + pane_regions(others@),
{
    let mut i: usize = 0;
    while i < others.len()
        invariant
            i <= others@.len(),
            list@ == old(list)@ + pane_regions(others@).take(i as int),
        decreases others@.len() - i,
    {
        put(list, Hit::Pane(others[i].index), others[i].whole);
        i += 1;
        assert(list@ =~= old(list)@ + pane_regions(others@).take(i as int));
    }
    assert(list@ =~= old(list)@ + pane_regions(others@));
}

/// Every rectangle the pointer can land on this frame, in hit-testing order.
/// Mouse handling, cursor shapes and scripted clicks all read this; none of
/// them measures anything on its own.
pub fn frame_of(state: &State, chrome: &Chrome, parts: &Parts) -> (frame: Vec<Region>)
    requires
        state.wf(),
        measured(*state, *chrome, *parts),
    ensures
        frame@ == regions_of(*state, *chrome, *parts),
{
    let mut frame: Vec<Region> = Vec::new();
    push_toolbar(&mut frame, &chrome.terminal, parts);
    let ghost mut done = toolbar_regions(*parts) + terminal_band(chrome.terminal);
    assert(frame@ =~= done);
    if let Some(rect) = &chrome.sidebar {
        push_sidebar(&mut frame, state, *rect, parts);
    }
    proof {
        done = done + sidebar_regions(*state, chrome.sidebar, *parts);
    }
    assert(frame@ =~= done);
    push_panes(&mut frame, &chrome.others);
    proof {
        done = done + pane_regions(chrome.others@);
    }
    push_tabs(&mut frame, &state.pane.tab_hits, state.pane.docs.active, chrome.tabs);
    proof {
        done = done + tab_regions(
            state.pane.tab_hits@,
            state.pane.docs.active,
            chrome.tabs,
        );
    }
    put(&mut frame, Hit::TabStrip, chrome.tabs);
    proof {
        done = done + seq![Region { hit: Hit::TabStrip, rect: chrome.tabs }];
    }
    assert(frame@ =~= done);
    if chrome.response.is_some() {
        push_strip(&mut frame, state, parts);
    }
    proof {
        done = done + strip_regions(*state, chrome.response, *parts);
    }
    assert(frame@ =~= done);
    if let Some(rect) = &chrome.find {
        put(&mut frame, Hit::Find, *rect);
    }
    proof {
        done = done + find_regions(chrome.find);
    }
    assert(frame@ =~= done);
    if let Some(rect) = &chrome.terminal {
        push_panel(&mut frame, *rect, parts);
    }
    proof {
        done = done + panel_regions(chrome.terminal, *parts);
    }
    assert(frame@ =~= done);
    put(&mut frame, Hit::Text, chrome.text);
    put(&mut frame, Hit::Status, chrome.status);
    assert(frame@ =~= regions_of(*state, *chrome, *parts));
    frame
}

/// What is under the point: the first region it lies in.
pub open spec fn hit_at(frame: Seq<Region>, x: i32, y: i32) -> Option<Hit>
    decreases frame.len(),
{
    if frame.len() == 0 {
        None
    } else if frame[0].rect.has(x, y) {
        Some(frame[0].hit)
    } else {
        hit_at(frame.skip(1), x, y)
    }
}

/// See [`hit_at`].
pub fn hit(frame: &Vec<Region>, x: i32, y: i32) -> (hit: Option<Hit>)
    ensures
        hit == hit_at(frame@, x, y),
{
    let mut i: usize = 0;
    assert(frame@.skip(0) =~= frame@);
    while i < frame.len()
        invariant
            i <= frame@.len(),
            hit_at(frame@, x, y) == hit_at(frame@.skip(i as int), x, y),
        decreases frame@.len() - i,
    {
        assert(frame@.skip(i as int)[0] == frame@[i as int]);
        if frame[i].rect.contains(x, y) {
            return Some(frame[i].hit);
        }
        assert(frame@.skip(i as int).skip(1) =~= frame@.skip(i + 1));
        i += 1;
    }
    None
}

/// Only the active tab has a close cross.
pub proof fn only_the_active_tab_closes(hits: Seq<TabHit>, active: usize, tabs: Rect, i: int)
    requires
        0 <= i < tab_regions(hits, active, tabs).len(),
    ensures
        tab_regions(hits, active, tabs)[i].hit matches Hit::TabClose(index) ==> index == active,
    decreases hits.len(),
{
    if hits.len() > 0 {
        let before = tab_regions(hits.drop_last(), active, tabs);
        if i < before.len() {
            only_the_active_tab_closes(hits.drop_last(), active, tabs, i);
        }
    }
}

/// A name being typed is no row of the tree, and no row is drawn twice.
pub proof fn every_row_is_drawn_once(edit: Option<SidebarEdit>, a: int, b: int)
    requires
        0 <= a < b,
        row_at(edit, a) is Some,
        row_at(edit, b) is Some,
    ensures
        row_at(edit, a)->0 < row_at(edit, b)->0,
        edit matches Some(e) ==> a != e.row && b != e.row,
{
}

} // verus!
