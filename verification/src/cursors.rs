//! Which pointer is shown over what.

use crate::focus::active_review;
use crate::frame::{Chrome, Hit, Rect, Region, DIVIDER_GRAB};
use crate::palette;
use crate::state::{EditorView, State, REACH};
use vstd::prelude::*;

verus! {

/// The shape of the pointer.
#[derive(Clone, Copy, PartialEq, Eq, Structural, Debug)]
pub enum Pointer {
    Arrow,
    Hand,
    Beam,
    /// Left and right: over the divider beside the sidebar.
    Columns,
    /// Up and down: over the one above the terminal.
    Rows,
}

/// A part of the window, and the pointer over it.
#[derive(Clone, Copy, PartialEq, Eq, Structural, Debug)]
pub struct CursorRect {
    pub rect: Rect,
    pub pointer: Pointer,
}

/// The palette, as it was drawn.
#[derive(Clone, Copy, PartialEq, Eq, Structural, Debug)]
pub struct PalettePlace {
    pub rect: Rect,
    /// How many rows there are to list.
    pub count: usize,
    /// How many rows fit.
    pub visible: usize,
    pub header: i32,
    pub row: i32,
}

/// Source control in the sidebar, as it was drawn.
pub struct GitPlace {
    pub refresh: Rect,
    pub message: Rect,
    pub commit: Rect,
    /// There is something to commit, and a message.
    pub can_commit: bool,
    /// The rows of files.
    pub files: Vec<Rect>,
}

/// The smaller parts that have a pointer of their own.
pub struct CursorParts {
    pub window: Rect,
    /// What can be pressed on the home screen.
    pub home: Vec<Rect>,
    pub palette: PalettePlace,
    /// The system's previewer shows the document.
    pub native_preview: bool,
    /// How wide the gutter beside the text is.
    pub gutter: i32,
    /// The buttons of the hunks of a change.
    pub hunks: Vec<Rect>,
    pub find_row: i32,
    pub explorer: Rect,
    pub source_control: Rect,
    pub git: GitPlace,
    pub actions: Vec<Rect>,
    /// How many rows of the tree fit.
    pub tree_rows: usize,
    pub header: i32,
    pub row: i32,
}

impl CursorParts {
    /// The measures can be added up.
    pub open spec fn near(&self) -> bool {
        &&& self.palette.rect.near()
        &&& 0 <= self.palette.header <= REACH
        &&& 0 <= self.palette.row
        &&& self.palette.visible * self.palette.row <= REACH
        &&& 0 <= self.gutter <= REACH
        &&& 0 <= self.find_row <= 100_000
        &&& 0 <= self.header <= REACH
        &&& 0 <= self.row
        &&& self.tree_rows * self.row <= REACH
    }
}

/// The pointer over a rectangle, unless there is nothing of it.
pub open spec fn shown(rect: Rect, pointer: Pointer) -> Seq<CursorRect> {
    if rect.width > 0 && rect.height > 0 {
        seq![CursorRect { rect, pointer }]
    } else {
        Seq::empty()
    }
}

/// The same pointer over several.
pub open spec fn all_shown(rects: Seq<Rect>, pointer: Pointer) -> Seq<CursorRect>
    decreases rects.len(),
{
    if rects.len() == 0 {
        Seq::empty()
    } else {
        all_shown(rects.drop_last(), pointer) + shown(rects.last(), pointer)
    }
}

/// Whether what the pointer lands on is a button.
pub open spec fn is_button(hit: Hit) -> bool {
    match hit {
        Hit::ToolbarSidebar => true,
        Hit::ToolbarProject => true,
        Hit::ToolbarSearch => true,
        Hit::SidebarExplorer => true,
        Hit::SidebarSourceControl => true,
        Hit::SidebarAction(_) => true,
        Hit::Tab(_) => true,
        Hit::TabClose(_) => true,
        Hit::ResponseSegment(_) => true,
        Hit::ReviewAccept => true,
        Hit::ReviewReject => true,
        Hit::ToolbarTerminal => true,
        Hit::TerminalTab(_) => true,
        Hit::TerminalClose(_) => true,
        Hit::TerminalNew => true,
        _ => false,
    }
}

/// A hand over each button.
pub open spec fn buttons_shown(frame: Seq<Region>) -> Seq<CursorRect>
    decreases frame.len(),
{
    if frame.len() == 0 {
        Seq::empty()
    } else {
        buttons_shown(frame.drop_last()) + if is_button(frame.last().hit) {
            shown(frame.last().rect, Pointer::Hand)
        } else {
            Seq::empty()
        }
    }
}

/// How many rows of the palette's list are drawn.
pub open spec fn palette_drawn(s: State, place: PalettePlace) -> int {
    let furthest = palette::max_scroll(place.count as int, place.visible as int);
    let first = if s.fields.palette_scroll < furthest {
        s.fields.palette_scroll as int
    } else {
        furthest
    };
    let rest = place.count - first;
    if rest < place.visible {
        rest
    } else {
        place.visible as int
    }
}

/// Over the palette: its field, the button that closes it, and its rows.
pub open spec fn palette_cursors(s: State, place: PalettePlace) -> Seq<CursorRect> {
    let r = place.rect;
    shown(
        Rect {
            x: (r.x + 1_200) as i32,
            y: (r.y + 800) as i32,
            width: (r.width - 6_800) as i32,
            height: 4_000,
        },
        Pointer::Beam,
    ) + shown(
        Rect {
            x: (r.x + r.width - 5_200) as i32,
            y: (r.y + 800) as i32,
            width: 4_000,
            height: 4_000,
        },
        Pointer::Hand,
    ) + shown(
        Rect {
            x: (r.x + 800) as i32,
            y: (r.y + place.header) as i32,
            width: (r.width - 1_600) as i32,
            height: (palette_drawn(s, place) * place.row) as i32,
        },
        Pointer::Hand,
    )
}

/// Over the text and, with a change showing, over its hunks' buttons.
pub open spec fn text_cursors(s: State, chrome: Chrome, parts: CursorParts) -> Seq<CursorRect> {
    let diff = s.git.open && s.git.showing_diff;
    let text = chrome.text;
    (if !parts.native_preview && !diff && !s.reviewing() {
        shown(
            Rect {
                x: (text.x + parts.gutter) as i32,
                width: (text.width - parts.gutter) as i32,
                ..text
            },
            Pointer::Beam,
        )
    } else {
        Seq::empty()
    }) + (if diff {
        all_shown(parts.hunks@, Pointer::Hand)
    } else {
        Seq::empty()
    })
}

/// The larger of two.
pub open spec fn at_least(a: int, b: int) -> int {
    if a < b {
        b
    } else {
        a
    }
}

/// The smaller of two.
pub open spec fn at_most(a: int, b: int) -> int {
    if a > b {
        b
    } else {
        a
    }
}

/// Over the find bar: its fields, its buttons, and its results.
pub open spec fn find_cursors(find: Rect, row: i32) -> Seq<CursorRect> {
    let fields = at_least(find.width - 18_000, 0);
    shown(
        Rect {
            width: fields as i32,
            height: at_most(find.height as int, row * 2) as i32,
            ..find
        },
        Pointer::Beam,
    ) + shown(
        Rect {
            x: (find.x + fields) as i32,
            width: at_most(find.width as int, 18_000) as i32,
            ..find
        },
        Pointer::Hand,
    ) + (if find.height > row * 2 {
        shown(
            Rect {
                y: (find.y + row * 2) as i32,
                height: (find.height - row * 2) as i32,
                ..find
            },
            Pointer::Hand,
        )
    } else {
        Seq::empty()
    })
}

/// Over source control. Only over the controls that are there: the empty
/// column below the last change cannot be pressed.
pub open spec fn git_cursors(s: State, git: GitPlace) -> Seq<CursorRect> {
    (if !s.git.busy {
        shown(git.refresh, Pointer::Hand)
    } else {
        Seq::empty()
    }) + shown(git.message, Pointer::Beam) + (if git.can_commit {
        shown(git.commit, Pointer::Hand)
    } else {
        Seq::empty()
    }) + all_shown(git.files@, Pointer::Hand)
}

/// How many rows of the tree are drawn.
pub open spec fn tree_drawn(s: State, fit: usize) -> int {
    let rest = at_least(s.side.tree.rows@.len() - s.side.tree.scroll, 0);
    at_most(rest, fit as int)
}

/// Over the tree: the buttons above it, and its rows.
pub open spec fn tree_cursors(s: State, sidebar: Rect, parts: CursorParts) -> Seq<CursorRect> {
    all_shown(parts.actions@, Pointer::Hand) + shown(
        Rect {
            y: (sidebar.y + parts.header) as i32,
            height: (tree_drawn(s, parts.tree_rows) * parts.row) as i32,
            ..sidebar
        },
        Pointer::Hand,
    )
}

/// Over the sidebar, and over the divider beside it.
pub open spec fn sidebar_cursors(s: State, sidebar: Rect, parts: CursorParts) -> Seq<CursorRect> {
    shown(parts.explorer, Pointer::Hand) + shown(parts.source_control, Pointer::Hand) + (
    if s.git.open {
        git_cursors(s, parts.git)
    } else {
        tree_cursors(s, sidebar, parts)
    }) + shown(
        Rect {
            x: (sidebar.x + sidebar.width - DIVIDER_GRAB) as i32,
            width: (DIVIDER_GRAB * 2) as i32,
            ..sidebar
        },
        Pointer::Columns,
    )
}

/// Over the divider above the terminal.
pub open spec fn terminal_cursors(terminal: Rect) -> Seq<CursorRect> {
    shown(
        Rect {
            y: (terminal.y - DIVIDER_GRAB) as i32,
            height: (DIVIDER_GRAB * 2) as i32,
            ..terminal
        },
        Pointer::Rows,
    )
}

/// Under everything else: an arrow, and hands on the home screen.
pub open spec fn base_cursors(s: State, parts: CursorParts) -> Seq<CursorRect> {
    shown(parts.window, Pointer::Arrow) + (if s.pane.docs.at_home() && s.fields.palette is None
        && !s.git.open {
        all_shown(parts.home@, Pointer::Hand)
    } else {
        Seq::empty()
    })
}

/// Over the rest of the window.
pub open spec fn window_cursors(
    s: State,
    chrome: Chrome,
    frame: Seq<Region>,
    parts: CursorParts,
) -> Seq<CursorRect> {
    buttons_shown(frame) + text_cursors(s, chrome, parts) + (match chrome.find {
        Some(find) => find_cursors(find, parts.find_row),
        None => Seq::empty(),
    }) + (match chrome.sidebar {
        Some(sidebar) => sidebar_cursors(s, sidebar, parts),
        None => Seq::empty(),
    }) + (match chrome.terminal {
        Some(terminal) => terminal_cursors(terminal),
        None => Seq::empty(),
    })
}

/// Adds the pointer over a rectangle.
fn put(out: &mut Vec<CursorRect>, rect: Rect, pointer: Pointer)
    ensures
        final(out)@ == old(out)@ + shown(rect, pointer),
{
    if rect.width > 0 && rect.height > 0 {
        out.push(CursorRect { rect, pointer });
    }
    assert(out@ =~= old(out)@ + shown(rect, pointer));
}

/// Adds a hand over each of several.
fn put_hands(out: &mut Vec<CursorRect>, rects: &Vec<Rect>)
    ensures
        final(out)@ == old(out)@ + all_shown(rects@, Pointer::Hand),
{
    let ghost before = out@;
    let mut i: usize = 0;
    assert(before + Seq::<CursorRect>::empty() =~= before);
    while i < rects.len()
        invariant
            i <= rects@.len(),
            out@ == before + all_shown(rects@.take(i as int), Pointer::Hand),
        decreases rects@.len() - i,
    {
        assert(rects@.take(i + 1).drop_last() =~= rects@.take(i as int));
        put(out, rects[i], Pointer::Hand);
        assert(out@ =~= before + all_shown(rects@.take(i + 1), Pointer::Hand));
        i += 1;
    }
    assert(rects@.take(i as int) =~= rects@);
}

/// See [`is_button`].
fn has_button(hit: &Hit) -> (r: bool)
    ensures
        r == is_button(*hit),
{
    match hit {
        Hit::ToolbarSidebar => true,
        Hit::ToolbarProject => true,
        Hit::ToolbarSearch => true,
        Hit::SidebarExplorer => true,
        Hit::SidebarSourceControl => true,
        Hit::SidebarAction(_) => true,
        Hit::Tab(_) => true,
        Hit::TabClose(_) => true,
        Hit::ResponseSegment(_) => true,
        Hit::ReviewAccept => true,
        Hit::ReviewReject => true,
        Hit::ToolbarTerminal => true,
        Hit::TerminalTab(_) => true,
        Hit::TerminalClose(_) => true,
        Hit::TerminalNew => true,
        _ => false,
    }
}

/// Adds a hand over each button.
fn put_buttons(out: &mut Vec<CursorRect>, frame: &Vec<Region>)
    ensures
        final(out)@ == old(out)@ + buttons_shown(frame@),
{
    let ghost before = out@;
    let mut i: usize = 0;
    assert(before + Seq::<CursorRect>::empty() =~= before);
    while i < frame.len()
        invariant
            i <= frame@.len(),
            out@ == before + buttons_shown(frame@.take(i as int)),
        decreases frame@.len() - i,
    {
        assert(frame@.take(i + 1).drop_last() =~= frame@.take(i as int));
        if has_button(&frame[i].hit) {
            put(out, frame[i].rect, Pointer::Hand);
        }
        assert(out@ =~= before + buttons_shown(frame@.take(i + 1)));
        i += 1;
    }
    assert(frame@.take(i as int) =~= frame@);
}

/// How tall `n` rows are.
fn rows_tall(n: usize, fit: usize, row: i32) -> (height: i32)
    requires
        n <= fit,
        0 <= row,
        fit * row <= REACH,
    ensures
        height == n * row,
        0 <= height <= REACH,
{
    if row == 0 {
        return 0;
    }
    assert(0 <= n * row <= fit * row && n <= n * row) by (nonlinear_arith)
        requires
            0 <= n <= fit,
            row > 0,
    ;
    n as i32 * row
}

impl State {
    /// Adds the pointers over the palette.
    fn put_palette(&self, out: &mut Vec<CursorRect>, place: &PalettePlace)
        requires
            place.rect.near(),
            0 <= place.header <= REACH,
            0 <= place.row,
            place.visible * place.row <= REACH,
        ensures
            final(out)@ == old(out)@ + palette_cursors(*self, *place),
    {
        let furthest = if place.count > place.visible {
            place.count - place.visible
        } else {
            0
        };
        let first = if self.fields.palette_scroll < furthest {
            self.fields.palette_scroll
        } else {
            furthest
        };
        let rest = place.count - first;
        let drawn = if rest < place.visible {
            rest
        } else {
            place.visible
        };
        assert(drawn == palette_drawn(*self, *place));
        let tall = rows_tall(drawn, place.visible, place.row);
        let r = place.rect;
        put(
            out,
            Rect { x: r.x + 1_200, y: r.y + 800, width: r.width - 6_800, height: 4_000 },
            Pointer::Beam,
        );
        put(
            out,
            Rect { x: r.x + r.width - 5_200, y: r.y + 800, width: 4_000, height: 4_000 },
            Pointer::Hand,
        );
        put(
            out,
            Rect { x: r.x + 800, y: r.y + place.header, width: r.width - 1_600, height: tall },
            Pointer::Hand,
        );
        assert(out@ =~= old(out)@ + palette_cursors(*self, *place));
    }

    /// Adds the pointers over the text.
    fn put_text(&self, out: &mut Vec<CursorRect>, chrome: &Chrome, parts: &CursorParts)
        requires
            self.wf(),
            chrome.text.near(),
            0 <= parts.gutter <= REACH,
        ensures
            final(out)@ == old(out)@ + text_cursors(*self, *chrome, *parts),
    {
        let diff = self.git.open && self.git.showing_diff;
        if !parts.native_preview && !diff && !active_review(self) {
            let text = chrome.text;
            put(
                out,
                Rect {
                    x: text.x + parts.gutter,
                    y: text.y,
                    width: text.width - parts.gutter,
                    height: text.height,
                },
                Pointer::Beam,
            );
        }
        if diff {
            put_hands(out, &parts.hunks);
        }
        assert(out@ =~= old(out)@ + text_cursors(*self, *chrome, *parts));
    }

    /// Adds the pointers over source control.
    fn put_git(&self, out: &mut Vec<CursorRect>, git: &GitPlace)
        ensures
            final(out)@ == old(out)@ + git_cursors(*self, *git),
    {
        if !self.git.busy {
            put(out, git.refresh, Pointer::Hand);
        }
        put(out, git.message, Pointer::Beam);
        if git.can_commit {
            put(out, git.commit, Pointer::Hand);
        }
        put_hands(out, &git.files);
        assert(out@ =~= old(out)@ + git_cursors(*self, *git));
    }

    /// Adds the pointers over the tree.
    fn put_tree(&self, out: &mut Vec<CursorRect>, sidebar: Rect, parts: &CursorParts)
        requires
            sidebar.near(),
            parts.near(),
        ensures
            final(out)@ == old(out)@ + tree_cursors(*self, sidebar, *parts),
    {
        put_hands(out, &parts.actions);
        let tree = &self.side.tree;
        let rest = if tree.rows.len() > tree.scroll {
            tree.rows.len() - tree.scroll
        } else {
            0
        };
        let drawn = if rest > parts.tree_rows {
            parts.tree_rows
        } else {
            rest
        };
        assert(drawn == tree_drawn(*self, parts.tree_rows));
        let tall = rows_tall(drawn, parts.tree_rows, parts.row);
        put(
            out,
            Rect {
                x: sidebar.x,
                y: sidebar.y + parts.header,
                width: sidebar.width,
                height: tall,
            },
            Pointer::Hand,
        );
        assert(out@ =~= old(out)@ + tree_cursors(*self, sidebar, *parts));
    }

    /// Adds the pointers over the sidebar.
    fn put_sidebar(&self, out: &mut Vec<CursorRect>, sidebar: Rect, parts: &CursorParts)
        requires
            sidebar.near(),
            parts.near(),
        ensures
            final(out)@ == old(out)@ + sidebar_cursors(*self, sidebar, *parts),
    {
        put(out, parts.explorer, Pointer::Hand);
        put(out, parts.source_control, Pointer::Hand);
        if self.git.open {
            self.put_git(out, &parts.git);
        } else {
            self.put_tree(out, sidebar, parts);
        }
        put(
            out,
            Rect {
                x: sidebar.x + sidebar.width - DIVIDER_GRAB,
                y: sidebar.y,
                width: DIVIDER_GRAB * 2,
                height: sidebar.height,
            },
            Pointer::Columns,
        );
        assert(out@ =~= old(out)@ + sidebar_cursors(*self, sidebar, *parts));
    }
}

/// Adds the pointers over the find bar.
fn put_find(out: &mut Vec<CursorRect>, find: Rect, row: i32)
    requires
        find.near(),
        0 <= row <= 100_000,
    ensures
        final(out)@ == old(out)@ + find_cursors(find, row),
{
    let fields = if find.width - 18_000 < 0 {
        0
    } else {
        find.width - 18_000
    };
    put(
        out,
        Rect {
            x: find.x,
            y: find.y,
            width: fields,
            height: if find.height > row * 2 {
                row * 2
            } else {
                find.height
            },
        },
        Pointer::Beam,
    );
    put(
        out,
        Rect {
            x: find.x + fields,
            y: find.y,
            width: if find.width > 18_000 {
                18_000
            } else {
                find.width
            },
            height: find.height,
        },
        Pointer::Hand,
    );
    if find.height > row * 2 {
        put(
            out,
            Rect {
                x: find.x,
                y: find.y + row * 2,
                width: find.width,
                height: find.height - row * 2,
            },
            Pointer::Hand,
        );
    }
    assert(out@ =~= old(out)@ + find_cursors(find, row));
}

/// Five parts after `before`, one at a time or together.
proof fn five_parts(
    before: Seq<CursorRect>,
    a: Seq<CursorRect>,
    b: Seq<CursorRect>,
    c: Seq<CursorRect>,
    d: Seq<CursorRect>,
    e: Seq<CursorRect>,
)
    ensures
        before + a + b + c + d + e == before + (a + b + c + d + e),
{
    assert(before + a + b + c + d + e =~= before + (a + b + c + d + e));
}

impl State {
    /// Adds what is under everything else.
    fn put_base(&self, out: &mut Vec<CursorRect>, parts: &CursorParts)
        requires
            self.wf(),
        ensures
            final(out)@ == old(out)@ + base_cursors(*self, *parts),
    {
        put(out, parts.window, Pointer::Arrow);
        if self.pane.docs.is_home() && self.fields.palette.is_none() && !self.git.open {
            put_hands(out, &parts.home);
        }
        assert(out@ =~= old(out)@ + base_cursors(*self, *parts));
    }

    /// Adds the divider above the terminal.
    fn put_terminal(out: &mut Vec<CursorRect>, terminal: Option<Rect>)
        requires
            terminal matches Some(terminal) ==> terminal.near(),
        ensures
            final(out)@ == old(out)@ + (match terminal {
                Some(terminal) => terminal_cursors(terminal),
                None => Seq::empty(),
            }),
    {
        match terminal {
            Some(terminal) => {
                put(
                    out,
                    Rect {
                        x: terminal.x,
                        y: terminal.y - DIVIDER_GRAB,
                        width: terminal.width,
                        height: DIVIDER_GRAB * 2,
                    },
                    Pointer::Rows,
                );
            },
            None => {
                assert(out@ =~= old(out)@ + Seq::<CursorRect>::empty());
            },
        }
    }

    /// Adds the find bar, if it is there.
    fn put_bar(out: &mut Vec<CursorRect>, find: Option<Rect>, row: i32)
        requires
            find matches Some(find) ==> find.near(),
            0 <= row <= 100_000,
        ensures
            final(out)@ == old(out)@ + (match find {
                Some(find) => find_cursors(find, row),
                None => Seq::empty(),
            }),
    {
        match find {
            Some(find) => {
                put_find(out, find, row);
            },
            None => {
                assert(out@ =~= old(out)@ + Seq::<CursorRect>::empty());
            },
        }
    }

    /// Adds the sidebar, if it is there.
    fn put_side(&self, out: &mut Vec<CursorRect>, sidebar: Option<Rect>, parts: &CursorParts)
        requires
            sidebar matches Some(sidebar) ==> sidebar.near(),
            parts.near(),
        ensures
            final(out)@ == old(out)@ + (match sidebar {
                Some(sidebar) => sidebar_cursors(*self, sidebar, *parts),
                None => Seq::empty(),
            }),
    {
        match sidebar {
            Some(sidebar) => {
                self.put_sidebar(out, sidebar, parts);
            },
            None => {
                assert(out@ =~= old(out)@ + Seq::<CursorRect>::empty());
            },
        }
    }

    /// Adds the pointers over the rest of the window.
    fn put_window(
        &self,
        out: &mut Vec<CursorRect>,
        chrome: &Chrome,
        frame: &Vec<Region>,
        parts: &CursorParts,
    )
        requires
            self.wf(),
            parts.near(),
            chrome.text.near(),
            chrome.find matches Some(find) ==> find.near(),
            chrome.sidebar matches Some(sidebar) ==> sidebar.near(),
            chrome.terminal matches Some(terminal) ==> terminal.near(),
        ensures
            final(out)@ == old(out)@ + window_cursors(*self, *chrome, frame@, *parts),
    {
        put_buttons(out, frame);
        self.put_text(out, chrome, parts);
        Self::put_bar(out, chrome.find, parts.find_row);
        self.put_side(out, chrome.sidebar, parts);
        Self::put_terminal(out, chrome.terminal);
        proof {
            five_parts(
                old(out)@,
                buttons_shown(frame@),
                text_cursors(*self, *chrome, *parts),
                match chrome.find {
                    Some(find) => find_cursors(find, parts.find_row),
                    None => Seq::empty(),
                },
                match chrome.sidebar {
                    Some(sidebar) => sidebar_cursors(*self, sidebar, *parts),
                    None => Seq::empty(),
                },
                match chrome.terminal {
                    Some(terminal) => terminal_cursors(terminal),
                    None => Seq::empty(),
                },
            );
        }
    }
}

impl EditorView {
    /// The pointers over the window, those further on above those before. The
    /// palette takes the whole window: nothing behind it has one.
    pub fn reset_cursor_rects(
        &self,
        chrome: &Chrome,
        frame: &Vec<Region>,
        parts: &CursorParts,
    ) -> (out: Vec<CursorRect>)
        requires
            self.state.wf(),
            parts.near(),
            chrome.text.near(),
            chrome.find matches Some(find) ==> find.near(),
            chrome.sidebar matches Some(sidebar) ==> sidebar.near(),
            chrome.terminal matches Some(terminal) ==> terminal.near(),
        ensures
            out@ == base_cursors(self.state, *parts) + if self.state.fields.palette is Some {
                palette_cursors(self.state, parts.palette)
            } else {
                window_cursors(self.state, *chrome, frame@, *parts)
            },
    {
        let mut out: Vec<CursorRect> = Vec::new();
        self.state.put_base(&mut out, parts);
        assert(out@ =~= base_cursors(self.state, *parts));
        if self.state.fields.palette.is_some() {
            self.state.put_palette(&mut out, &parts.palette);
        } else {
            self.state.put_window(&mut out, chrome, frame, parts);
        }
        out
    }
}

/// A pointer is never asked for over nothing.
pub proof fn a_pointer_has_a_place(rects: Seq<Rect>, pointer: Pointer, i: int)
    requires
        0 <= i < all_shown(rects, pointer).len(),
    ensures
        all_shown(rects, pointer)[i].rect.width > 0,
        all_shown(rects, pointer)[i].rect.height > 0,
        all_shown(rects, pointer)[i].pointer == pointer,
    decreases rects.len(),
{
    if i < all_shown(rects.drop_last(), pointer).len() {
        a_pointer_has_a_place(rects.drop_last(), pointer, i);
    }
}

} // verus!
