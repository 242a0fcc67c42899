//! What a frame draws, in order, and what it says.

use crate::focus::active_review;
use crate::folding::{apply_wrap, Columns};
use crate::frame::Rect;
use crate::ignore::{self, paths_hidden};
use crate::labels::{self, searching};
use crate::link::NOTE_TIME;
use crate::pacing::{self, caret_phase};
use crate::panes::PaneStore;
use crate::path;
use crate::servers::{self, find_server, lsp_language};
use crate::settings;
use crate::state::{EditorView, Effect, Look, State, Status};
use crate::tabs::{self, default_preview};
use vstd::prelude::*;

verus! {

/// How much a language server minds what it has found.
#[derive(Clone, Copy, PartialEq, Eq, Structural, Debug)]
pub enum Severity {
    Error,
    Warning,
    Information,
    Hint,
}

/// A colour of the theme.
#[derive(Clone, Copy, PartialEq, Eq, Structural, Debug)]
pub enum Paint {
    DiffRemoved,
    SynConstant,
    StatusText,
}

/// One step of drawing a frame.
#[derive(PartialEq, Eq, Debug)]
pub enum Draw {
    /// The change picked in source control, in place of the document.
    Diff,
    /// A proposed edit.
    Review,
    /// The home screen.
    Home,
    /// The document, rendered from this block on.
    Rendering(usize),
    /// The text, with its carets or in the off half of a blink, and with what
    /// the find bar finds marked or not.
    Text(bool, bool),
    GutterMarks,
    /// What an input method is composing, at the caret.
    Marked,
    /// The line under what the language server has found, the one of this
    /// number.
    Underline(usize, Paint),
    /// The suggestions under the caret.
    Ribbon,
    Signature,
    /// A pane without the keyboard.
    OtherPane(usize),
    Toolbar,
    Tabs,
    /// The row over a change, which says what it is.
    DiffTitle,
    Breadcrumbs,
    ResponseStrip,
    ReviewStrip,
    /// How to see the document rendered, or its source.
    PreviewHint,
    FindBar,
    /// A row of the tree is drawn as ignored: the rule being typed would hide
    /// the item at this path.
    Ignored(String),
    Sidebar,
    SourceControl,
    /// Where what is dragged would land: at this row from the top, or in the
    /// whole column.
    DropBand(Option<usize>),
    Terminal,
    Status,
    /// A field that takes over the status line.
    Prompt,
    /// The palette floats over everything.
    Palette,
}

/// What only the outside knows when a frame is drawn.
pub struct FrameFacts {
    /// Whether there is anything to draw into.
    pub room: bool,
    pub cols: Columns,
    pub key_window: bool,
    /// Whether the caret is on screen.
    pub caret_visible: bool,
    /// How many blocks the rendered document has.
    pub blocks: usize,
    /// The panes without the keyboard that have a place, by their number.
    pub others: Vec<usize>,
    /// What the language server has found in the active document.
    pub found: Vec<Severity>,
    /// Whether the active document is an ignore file.
    pub ignore_file: bool,
    /// Which of the rows below the rule's folder the rule at the caret matches,
    /// in their order; nothing when it is no rule.
    pub matched: Option<Vec<bool>>,
}

/// The colour of the line under what a language server has found.
pub open spec fn paint_of(severity: Severity) -> Paint {
    match severity {
        Severity::Error => Paint::DiffRemoved,
        Severity::Warning => Paint::SynConstant,
        Severity::Information | Severity::Hint => Paint::StatusText,
    }
}

/// The steps that underline what a language server has found.
pub open spec fn underline_steps(found: Seq<Severity>) -> Seq<Draw> {
    Seq::new(found.len(), |i: int| Draw::Underline(i as usize, paint_of(found[i])))
}

/// What a language server thinks of a stretch of text.
pub struct Diagnostic {
    pub start_line: u32,
    pub end_line: u32,
    pub error: bool,
    pub message: String,
}

/// The block that a rendered document starts at.
pub open spec fn first_block(preview: Option<usize>, blocks: usize) -> int {
    let wanted = match preview {
        Some(at) => at as int,
        None => 0,
    };
    let last = if blocks == 0 {
        0
    } else {
        blocks - 1
    };
    if wanted < last {
        wanted
    } else {
        last
    }
}

/// Whether the carets are in the on half of their blink.
pub open spec fn carets_on(view: EditorView, key_window: bool, now: u64) -> bool {
    let frame = view.state.frame;
    let blinks = frame.caret_blink && !view.ivars.testing && key_window;
    let since = if now >= frame.caret_since {
        now - frame.caret_since
    } else {
        0
    };
    !blinks || (since / (pacing::CARET_BLINK as int)) % 2 == 0
}

/// Whether the list of suggestions is drawn.
pub open spec fn ribbon_shows(s: State) -> bool {
    s.hints.completion matches Some(popup) && popup.buffer == s.pane.docs.front().id
        && popup.shown@.len() > 0
}

/// Whether what is composed is drawn in the text.
pub open spec fn marked_shows(s: State) -> bool {
    s.hints.marked is Some && s.fields.find is None && s.fields.palette is None
        && s.fields.goto_line is None
}

/// Whether a server speaks for the active document.
pub open spec fn has_server(s: State) -> bool {
    servers::language_of(s.pane.docs.front()) matches Some(language) && servers::server_at(
        s.servers.list@,
        language.server,
    ) is Some
}

/// The steps that draw the text itself.
pub open spec fn line_steps(s: State, carets: bool, caret_visible: bool) -> Seq<Draw> {
    seq![Draw::Text(carets, labels::searches(s))] + (if s.gutter.rows@.contains_key(
        s.pane.docs.front().id,
    ) {
        seq![Draw::GutterMarks]
    } else {
        Seq::empty()
    }) + (if marked_shows(s) && caret_visible {
        seq![Draw::Marked]
    } else {
        Seq::empty()
    })
}

/// The steps that draw what is suggested at the caret.
pub open spec fn hint_steps(s: State, caret_visible: bool) -> Seq<Draw> {
    let id = s.pane.docs.front().id;
    (if ribbon_shows(s) && caret_visible {
        seq![Draw::Ribbon]
    } else {
        Seq::empty()
    }) + (if (s.hints.signature matches Some(tip) && tip.buffer == id) && caret_visible {
        seq![Draw::Signature]
    } else {
        Seq::empty()
    })
}

/// The steps that draw the text and what goes with it.
pub open spec fn text_steps(s: State, carets: bool, facts: FrameFacts) -> Seq<Draw> {
    line_steps(s, carets, facts.caret_visible) + (if has_server(s) {
        underline_steps(facts.found@)
    } else {
        Seq::empty()
    }) + hint_steps(s, facts.caret_visible)
}

/// Whether a change takes the editor column.
pub open spec fn diffing(s: State) -> bool {
    s.git.open && s.git.showing_diff
}

/// The steps that draw the editor column.
pub open spec fn body_steps(s: State, carets: bool, facts: FrameFacts) -> Seq<Draw> {
    if diffing(s) {
        seq![Draw::Diff]
    } else if s.reviewing() {
        seq![Draw::Review]
    } else if s.pane.docs.at_home() {
        seq![Draw::Home]
    } else if s.rendered() {
        seq![Draw::Rendering(first_block(s.pane.preview, facts.blocks) as usize)]
    } else {
        text_steps(s, carets, facts)
    }
}

/// Which of the stored panes is pane `number`.
pub open spec fn stored_at(number: usize, focused: usize) -> int {
    if number > focused {
        number - 1
    } else {
        number as int
    }
}

/// The steps that draw the other panes.
pub open spec fn pane_steps(others: Seq<usize>, focused: usize, count: int) -> Seq<Draw>
    decreases others.len(),
{
    if others.len() == 0 {
        Seq::empty()
    } else {
        let before = pane_steps(others.drop_last(), focused, count);
        let at = stored_at(others.last(), focused);
        if at < count {
            before.push(Draw::OtherPane(at as usize))
        } else {
            before
        }
    }
}

/// The steps that draw the rows over the editor column.
pub open spec fn head_steps(s: State) -> Seq<Draw> {
    let front = s.pane.docs.front();
    seq![Draw::Toolbar, Draw::Tabs] + (if diffing(s) {
        seq![Draw::DiffTitle]
    } else {
        seq![Draw::Breadcrumbs] + (if s.http.responses@.contains_key(front.id) {
            seq![Draw::ResponseStrip]
        } else {
            Seq::empty()
        }) + (if s.reviewing() {
            seq![Draw::ReviewStrip]
        } else {
            Seq::empty()
        }) + (if tabs::preview_of(front) is Some {
            seq![Draw::PreviewHint]
        } else {
            Seq::empty()
        })
    })
}

/// Where what is dragged would land.
pub open spec fn drop_row(s: State) -> Option<usize> {
    match s.side.drag->0.over {
        Some(row) => Some(
            if row >= s.side.tree.scroll {
                (row - s.side.tree.scroll) as usize
            } else {
                0
            },
        ),
        None => None,
    }
}

/// The steps that draw rows of the tree as ignored.
pub open spec fn ignored_steps(s: State, facts: FrameFacts) -> Seq<Draw> {
    ignore::hidden_paths(
        s.pane.docs.front(),
        s.hints.completion,
        facts.ignore_file,
        s.side.tree.rows@,
        facts.matched,
    ).map_values(|place: String| Draw::Ignored(place))
}

/// The steps that draw the sidebar.
pub open spec fn side_steps(s: State, facts: FrameFacts) -> Seq<Draw> {
    if s.side.open {
        ignored_steps(s, facts) + seq![Draw::Sidebar] + (if s.git.open {
            seq![Draw::SourceControl]
        } else if s.side.drag matches Some(drag) && drag.active && drag.valid {
            seq![Draw::DropBand(drop_row(s))]
        } else {
            Seq::empty()
        })
    } else {
        Seq::empty()
    }
}

/// The steps that draw what lies over the window.
pub open spec fn over_steps(s: State) -> Seq<Draw> {
    seq![Draw::Status] + (if s.fields.goto_line is Some || s.fields.rename is Some {
        seq![Draw::Prompt]
    } else {
        Seq::empty()
    }) + (if s.fields.palette is Some {
        seq![Draw::Palette]
    } else {
        Seq::empty()
    })
}

/// The steps that draw the panels and the rows under the editor.
pub open spec fn panel_steps(s: State, facts: FrameFacts) -> Seq<Draw> {
    (if s.fields.find is Some {
        seq![Draw::FindBar]
    } else {
        Seq::empty()
    }) + side_steps(s, facts) + (if s.terminal.open {
        seq![Draw::Terminal]
    } else {
        Seq::empty()
    }) + over_steps(s)
}

/// The steps of a frame.
pub open spec fn frame_steps(s: State, carets: bool, facts: FrameFacts) -> Seq<Draw> {
    body_steps(s, carets, facts) + pane_steps(
        facts.others@,
        s.focused_pane,
        s.panes@.len() as int,
    ) + head_steps(s) + panel_steps(s, facts)
}

/// What keeps the scroll positions in range: the text's, and the tree's when
/// it shows.
pub open spec fn clamping(s: State) -> Seq<Effect> {
    if s.side.open {
        seq![Effect::ClampScroll, Effect::ScrollTree(0)]
    } else {
        seq![Effect::ClampScroll]
    }
}

impl State {
    /// The state that a frame shows: the active document wrapped for the room
    /// there is, and no note that has stood long enough.
    pub open spec fn framed(self, after: State, cols: Columns, now: u64) -> bool {
        let over = self.status.message matches Some(note) && now - note.at >= NOTE_TIME;
        &&& settings::rewraps(after.pane.docs, self.pane.docs, self.status.word_wrap, cols)
        &&& after == (State {
            status: Status {
                message: if over {
                    None
                } else {
                    self.status.message
                },
                ..self.status
            },
            ..self.with_docs(after.pane.docs)
        })
    }
}

/// See [`has_server`].
pub(crate) fn speaks(s: &State) -> (r: bool)
    requires
        s.wf(),
    ensures
        r == has_server(*s),
{
    match lsp_language(s.pane.docs.active()) {
        Some(language) => find_server(&s.servers.list, language.server).is_some(),
        None => false,
    }
}

/// See [`underline_steps`].
fn push_underlines(plan: &mut Vec<Draw>, found: &Vec<Severity>)
    ensures
        final(plan)@ == old(plan)@ + underline_steps(found@),
{
    let mut i: usize = 0;
    while i < found.len()
        invariant
            i <= found@.len(),
            plan@ == old(plan)@ + underline_steps(found@).take(i as int),
        decreases found@.len() - i,
    {
        let paint = match found[i] {
            Severity::Error => Paint::DiffRemoved,
            Severity::Warning => Paint::SynConstant,
            Severity::Information | Severity::Hint => Paint::StatusText,
        };
        plan.push(Draw::Underline(i, paint));
        i += 1;
        assert(plan@ =~= old(plan)@ + underline_steps(found@).take(i as int));
    }
    assert(plan@ =~= old(plan)@ + underline_steps(found@));
}

/// See [`line_steps`].
fn push_lines(plan: &mut Vec<Draw>, s: &State, carets: bool, caret_visible: bool)
    requires
        s.wf(),
    ensures
        final(plan)@ == old(plan)@ + line_steps(*s, carets, caret_visible),
{
    plan.push(Draw::Text(carets, searching(s)));
    if s.gutter.rows.contains_key(&s.pane.docs.active().id) {
        plan.push(Draw::GutterMarks);
    }
    if s.hints.marked.is_some() && s.fields.find.is_none() && s.fields.palette.is_none()
        && s.fields.goto_line.is_none() && caret_visible {
        plan.push(Draw::Marked);
    }
    assert(plan@ =~= old(plan)@ + line_steps(*s, carets, caret_visible));
}

/// See [`hint_steps`].
fn push_hints(plan: &mut Vec<Draw>, s: &State, caret_visible: bool)
    requires
        s.wf(),
    ensures
        final(plan)@ == old(plan)@ + hint_steps(*s, caret_visible),
{
    let id = s.pane.docs.active().id;
    let ribbon = match &s.hints.completion {
        Some(popup) => popup.buffer == id && popup.shown.len() > 0,
        None => false,
    };
    if ribbon && caret_visible {
        plan.push(Draw::Ribbon);
    }
    let tip = match &s.hints.signature {
        Some(tip) => tip.buffer == id,
        None => false,
    };
    if tip && caret_visible {
        plan.push(Draw::Signature);
    }
    assert(plan@ =~= old(plan)@ + hint_steps(*s, caret_visible));
}

/// See [`text_steps`].
fn push_text(plan: &mut Vec<Draw>, s: &State, carets: bool, facts: &FrameFacts)
    requires
        s.wf(),
    ensures
        final(plan)@ == old(plan)@ + text_steps(*s, carets, *facts),
{
    push_lines(plan, s, carets, facts.caret_visible);
    if speaks(s) {
        push_underlines(plan, &facts.found);
    }
    push_hints(plan, s, facts.caret_visible);
    assert(plan@ =~= old(plan)@ + text_steps(*s, carets, *facts));
}

/// See [`body_steps`].
fn push_body(plan: &mut Vec<Draw>, s: &State, carets: bool, facts: &FrameFacts)
    requires
        s.wf(),
    ensures
        final(plan)@ == old(plan)@ + body_steps(*s, carets, *facts),
{
    if s.git.open && s.git.showing_diff {
        plan.push(Draw::Diff);
    } else if active_review(s) {
        plan.push(Draw::Review);
    } else if s.pane.docs.is_home() {
        plan.push(Draw::Home);
    } else if s.pane.preview.is_some() && default_preview(s.pane.docs.active()).is_some() {
        let wanted = match s.pane.preview {
            Some(at) => at,
            None => 0,
        };
        let last = if facts.blocks == 0 {
            0
        } else {
            facts.blocks - 1
        };
        plan.push(
            Draw::Rendering(
                if wanted < last {
                    wanted
                } else {
                    last
                },
            ),
        );
    } else {
        push_text(plan, s, carets, facts);
        return;
    }
    assert(plan@ =~= old(plan)@ + body_steps(*s, carets, *facts));
}

/// See [`pane_steps`].
fn push_panes(plan: &mut Vec<Draw>, others: &Vec<usize>, focused: usize, count: usize)
    ensures
        final(plan)@ == old(plan)@ + pane_steps(others@, focused, count as int),
{
    let mut i: usize = 0;
    assert(others@.take(0) =~= Seq::empty());
    assert(plan@ =~= old(plan)@ + pane_steps(others@.take(0), focused, count as int));
    while i < others.len()
        invariant
            i <= others@.len(),
            plan@ == old(plan)@ + pane_steps(others@.take(i as int), focused, count as int),
        decreases others@.len() - i,
    {
        assert(others@.take(i + 1).drop_last() =~= others@.take(i as int));
        let at = if others[i] > focused {
            others[i] - 1
        } else {
            others[i]
        };
        if at < count {
            plan.push(Draw::OtherPane(at));
        }
        i += 1;
        assert(plan@ =~= old(plan)@ + pane_steps(others@.take(i as int), focused, count as int));
    }
    assert(others@.take(others@.len() as int) =~= others@);
}

/// See [`head_steps`].
fn push_head(plan: &mut Vec<Draw>, s: &State)
    requires
        s.wf(),
    ensures
        final(plan)@ == old(plan)@ + head_steps(*s),
{
    let front = s.pane.docs.active();
    plan.push(Draw::Toolbar);
    plan.push(Draw::Tabs);
    if s.git.open && s.git.showing_diff {
        plan.push(Draw::DiffTitle);
    } else {
        plan.push(Draw::Breadcrumbs);
        if s.http.responses.contains_key(&front.id) {
            plan.push(Draw::ResponseStrip);
        }
        if active_review(s) {
            plan.push(Draw::ReviewStrip);
        }
        if default_preview(front).is_some() {
            plan.push(Draw::PreviewHint);
        }
    }
    assert(plan@ =~= old(plan)@ + head_steps(*s));
}

/// See [`ignored_steps`].
fn push_ignored(plan: &mut Vec<Draw>, s: &State, facts: &FrameFacts)
    requires
        s.wf(),
    ensures
        final(plan)@ == old(plan)@ + ignored_steps(*s, *facts),
{
    let hidden = paths_hidden(
        s.pane.docs.active(),
        &s.hints.completion,
        facts.ignore_file,
        &s.side.tree.rows,
        &facts.matched,
    );
    let ghost steps = ignored_steps(*s, *facts);
    let mut i: usize = 0;
    while i < hidden.len()
        invariant
            i <= hidden@.len(),
            steps == hidden@.map_values(|place: String| Draw::Ignored(place)),
            plan@ == old(plan)@ + steps.take(i as int),
        decreases hidden@.len() - i,
    {
        plan.push(Draw::Ignored(hidden[i].clone()));
        i += 1;
        assert(plan@ =~= old(plan)@ + steps.take(i as int));
    }
    assert(steps.take(steps.len() as int) =~= steps);
}

/// See [`side_steps`].
fn push_side(plan: &mut Vec<Draw>, s: &State, facts: &FrameFacts)
    requires
        s.wf(),
    ensures
        final(plan)@ == old(plan)@ + side_steps(*s, *facts),
{
    if s.side.open {
        push_ignored(plan, s, facts);
        plan.push(Draw::Sidebar);
        if s.git.open {
            plan.push(Draw::SourceControl);
        } else if let Some(drag) = &s.side.drag {
            if drag.active && drag.valid {
                let row = match drag.over {
                    Some(row) => Some(
                        if row >= s.side.tree.scroll {
                            row - s.side.tree.scroll
                        } else {
                            0
                        },
                    ),
                    None => None,
                };
                plan.push(Draw::DropBand(row));
            }
        }
    }
    assert(plan@ =~= old(plan)@ + side_steps(*s, *facts));
}

/// See [`over_steps`].
fn push_over(plan: &mut Vec<Draw>, s: &State)
    ensures
        final(plan)@ == old(plan)@ + over_steps(*s),
{
    plan.push(Draw::Status);
    if s.fields.goto_line.is_some() || s.fields.rename.is_some() {
        plan.push(Draw::Prompt);
    }
    if s.fields.palette.is_some() {
        plan.push(Draw::Palette);
    }
    assert(plan@ =~= old(plan)@ + over_steps(*s));
}

/// See [`panel_steps`].
fn push_panels(plan: &mut Vec<Draw>, s: &State, facts: &FrameFacts)
    requires
        s.wf(),
    ensures
        final(plan)@ == old(plan)@ + panel_steps(*s, *facts),
{
    let ghost start = plan@;
    if s.fields.find.is_some() {
        plan.push(Draw::FindBar);
    }
    push_side(plan, s, facts);
    if s.terminal.open {
        plan.push(Draw::Terminal);
    }
    push_over(plan, s);
    assert(plan@ =~= start + panel_steps(*s, *facts));
}

impl EditorView {
    /// Draws a frame: what to draw, in order, or nothing when there is no
    /// room.
    ///
    /// First of all, what would be recovered after a crash is the text as of
    /// this frame. Scroll positions are clamped every frame, against the rows
    /// this frame really has: what they are clamped against changes without
    /// any scrolling.
    pub fn render(&mut self, facts: &FrameFacts, now: u64) -> (plan: Option<Vec<Draw>>)
        requires
            old(self).state.wf(),
        ensures
            final(self).state.wf(),
            final(self).ivars == old(self).ivars,
            if facts.room {
                &&& old(self).state.framed(final(self).state, facts.cols, now)
                &&& final(self).effects@ == old(self).effects@ + (seq![Effect::PublishRecovery]
                    + clamping(old(self).state))
                &&& plan matches Some(plan)
                &&& plan@ == frame_steps(
                    final(self).state,
                    carets_on(*old(self), facts.key_window, now),
                    *facts,
                )
            } else {
                &&& plan is None
                &&& final(self).becomes(*old(self), old(self).state, seq![Effect::PublishRecovery])
            },
    {
        self.ask(Effect::PublishRecovery);
        if !facts.room {
            return None;
        }
        let carets = self.carets_on(facts.key_window, now);
        self.prepare_frame(facts.cols, now);
        assert(self.effects@ =~= old(self).effects@ + (seq![Effect::PublishRecovery] + clamping(
            old(self).state,
        )));
        let mut plan: Vec<Draw> = Vec::new();
        let s = &self.state;
        push_body(&mut plan, s, carets, facts);
        push_panes(&mut plan, &facts.others, s.focused_pane, s.panes.len());
        push_head(&mut plan, s);
        push_panels(&mut plan, s, facts);
        assert(plan@ =~= frame_steps(*s, carets, *facts));
        Some(plan)
    }

    /// See [`carets_on`].
    fn carets_on(&self, key_window: bool, now: u64) -> (r: bool)
        ensures
            r == carets_on(*self, key_window, now),
    {
        if !self.caret_blinks(key_window) {
            return true;
        }
        let since = if now >= self.state.frame.caret_since {
            now - self.state.frame.caret_since
        } else {
            0
        };
        caret_phase(since).0
    }

    /// Wraps the active document for the room there is, and takes away a note
    /// that has stood long enough.
    fn prepare_frame(&mut self, cols: Columns, now: u64)
        requires
            old(self).state.wf(),
        ensures
            final(self).state.wf(),
            final(self).ivars == old(self).ivars,
            old(self).state.framed(final(self).state, cols, now),
            final(self).effects@ == old(self).effects@ + clamping(old(self).state),
    {
        let setting = self.state.status.word_wrap;
        let at = self.state.pane.docs.active;
        apply_wrap(&mut self.state.pane.docs.list[at], setting, cols);
        assert(self.state.pane.docs.list@ =~= old(self).state.pane.docs.list@.update(
            at as int,
            old(self).state.pane.docs.front().wrapped(setting, cols),
        ));
        let over = match &self.state.status.message {
            Some(note) => now >= note.at && now - note.at >= NOTE_TIME,
            None => false,
        };
        if over {
            self.state.status.message = None;
        }
        self.effects.push(Effect::ClampScroll);
        if self.state.side.open {
            self.effects.push(Effect::ScrollTree(0));
        }
        assert(self.effects@ =~= old(self).effects@ + clamping(old(self).state));
    }
}

/// The palette, when it is open, is the last thing drawn.
pub proof fn the_palette_is_on_top(s: State, carets: bool, facts: FrameFacts)
    requires
        s.fields.palette is Some,
    ensures
        frame_steps(s, carets, facts).last() == Draw::Palette,
{
    assert(over_steps(s).last() == Draw::Palette);
    assert(panel_steps(s, facts).last() == Draw::Palette);
}

/// A document's text is drawn only when nothing takes its column.
pub proof fn one_thing_in_the_column(s: State, carets: bool, facts: FrameFacts)
    ensures
        body_steps(s, carets, facts).len() > 0,
        (diffing(s) || s.reviewing() || s.pane.docs.at_home() || s.rendered()) ==> body_steps(
            s,
            carets,
            facts,
        ).len() == 1,
        body_steps(s, carets, facts)[0] is Text == !(diffing(s) || s.reviewing()
            || s.pane.docs.at_home() || s.rendered()),
{
}

/// One step of drawing a pane without the keyboard.
#[derive(Clone, Copy, PartialEq, Eq, Structural, Debug)]
pub enum PaneDraw {
    /// The document's scroll position is brought back within what the pane
    /// has room for.
    ClampScroll,
    Tabs,
    Breadcrumbs,
    ResponseStrip,
    Home,
    /// The document, rendered from this block on.
    Rendering(usize),
    Text,
    GutterMarks,
    /// The seam between panes.
    Seam,
}

/// The steps that draw a pane without the keyboard: its tabs, breadcrumbs and
/// document, without caret, find or overlays. Its scroll position is clamped
/// before anything of it is drawn, as that of the pane with the keyboard is.
pub open spec fn other_steps(
    pane: PaneStore,
    response: bool,
    marks: bool,
    blocks: usize,
) -> Seq<PaneDraw> {
    seq![PaneDraw::ClampScroll, PaneDraw::Tabs, PaneDraw::Breadcrumbs] + (if response {
        seq![PaneDraw::ResponseStrip]
    } else {
        Seq::empty()
    }) + (if pane.docs.at_home() {
        seq![PaneDraw::Home]
    } else if pane.preview is Some && tabs::preview_of(pane.docs.front()) is Some {
        seq![PaneDraw::Rendering(first_block(pane.preview, blocks) as usize)]
    } else {
        seq![PaneDraw::Text] + (if marks {
            seq![PaneDraw::GutterMarks]
        } else {
            Seq::empty()
        }) + seq![PaneDraw::Seam]
    })
}

/// Draws a pane that does not have the keyboard. `response` is whether its
/// document is a reply, `marks` whether Git marks lines of it, and `blocks`
/// how many blocks it has when it is rendered.
pub fn draw_other_pane(
    pane: &mut PaneStore,
    setting: crate::state::WordWrap,
    cols: Columns,
    response: bool,
    marks: bool,
    blocks: usize,
) -> (plan: Vec<PaneDraw>)
    requires
        old(pane).docs.wf(),
    ensures
        final(pane).docs.wf(),
        settings::rewraps(final(pane).docs, old(pane).docs, setting, cols),
        *final(pane) == (PaneStore { docs: final(pane).docs, ..*old(pane) }),
        plan@ == other_steps(*final(pane), response, marks, blocks),
{
    let at = pane.docs.active;
    apply_wrap(&mut pane.docs.list[at], setting, cols);
    assert(pane.docs.list@ =~= old(pane).docs.list@.update(
        at as int,
        old(pane).docs.front().wrapped(setting, cols),
    ));
    let mut plan: Vec<PaneDraw> = Vec::new();
    plan.push(PaneDraw::ClampScroll);
    plan.push(PaneDraw::Tabs);
    plan.push(PaneDraw::Breadcrumbs);
    if response {
        plan.push(PaneDraw::ResponseStrip);
    }
    if pane.docs.is_home() {
        plan.push(PaneDraw::Home);
    } else if pane.preview.is_some() && default_preview(pane.docs.active()).is_some() {
        let wanted = match pane.preview {
            Some(at) => at,
            None => 0,
        };
        let last = if blocks == 0 {
            0
        } else {
            blocks - 1
        };
        plan.push(
            PaneDraw::Rendering(
                if wanted < last {
                    wanted
                } else {
                    last
                },
            ),
        );
    } else {
        plan.push(PaneDraw::Text);
        if marks {
            plan.push(PaneDraw::GutterMarks);
        }
        plan.push(PaneDraw::Seam);
    }
    assert(plan@ =~= other_steps(*pane, response, marks, blocks));
    plan
}

/// What becomes of the system's preview of a file.
pub enum PreviewSync {
    /// It is the right one; it only moves.
    Stay,
    /// It goes, and this file's comes, if any.
    Replace(Option<String>),
}

impl EditorView {
    /// The file that the system's previewer shows instead of text.
    pub open spec fn previewed(&self) -> Option<String> {
        let front = self.state.pane.docs.front();
        if front.preview_file {
            front.path
        } else {
            None
        }
    }

    /// Whether the preview of `shown` follows the document in front.
    pub fn sync_native_preview(&self, shown: &Option<String>) -> (sync: PreviewSync)
        requires
            self.state.wf(),
        ensures
            ({
                let wanted = self.previewed();
                let same = match (wanted, *shown) {
                    (Some(a), Some(b)) => path::same_path(a@, b@),
                    _ => false,
                };
                sync == if same {
                    PreviewSync::Stay
                } else {
                    PreviewSync::Replace(wanted)
                }
            }),
    {
        let front = self.state.pane.docs.active();
        let wanted = if front.preview_file {
            match &front.path {
                Some(path) => Some(path.clone()),
                None => None,
            }
        } else {
            None
        };
        if let (Some(a), Some(b)) = (&wanted, shown) {
            if path::path_eq(a.as_str(), b.as_str()) {
                return PreviewSync::Stay;
            }
        }
        PreviewSync::Replace(wanted)
    }

    /// The window now stands at `frame` on the screen, or nowhere when the view
    /// is in none: it was moved or resized, or is asked before its place is
    /// saved.
    pub fn window_framed(&mut self, frame: Option<Rect>)
        requires
            old(self).state.wf(),
        ensures
            final(self).state.wf(),
            *final(self) == (EditorView {
                state: State {
                    look: Look { window: frame, ..old(self).state.look },
                    ..old(self).state
                },
                ..*old(self)
            }),
    {
        self.state.look.window = frame;
    }

    /// The window has another size. `rescaled` is whether it moved to a
    /// display with a different scale: the glyphs were made for the old one
    /// and would be resampled, which is a blur.
    pub fn resize(&mut self, rescaled: bool, now: u64)
        requires
            old(self).state.wf(),
        ensures
            final(self).state.wf(),
            final(self).shows(
                *old(self),
                old(self).state,
                if rescaled {
                    seq![Effect::BuildAtlas(old(self).state.look.font, old(self).state.look.size)]
                } else {
                    Seq::empty()
                },
                now,
            ),
    {
        let ghost done = if rescaled {
            seq![Effect::BuildAtlas(self.state.look.font, self.state.look.size)]
        } else {
            Seq::empty()
        };
        if rescaled {
            self.effects.push(
                Effect::BuildAtlas(self.state.look.font.clone(), self.state.look.size),
            );
        }
        assert(self.effects@ =~= old(self).effects@ + done);
        self.show(now);
        assert(self.effects@ =~= old(self).effects@ + (done + old(self).pumping(now)));
    }
}

/// What is part of a part of the frame is part of the frame.
proof fn parts_are_drawn(s: State, carets: bool, facts: FrameFacts, step: Draw)
    ensures
        body_steps(s, carets, facts).contains(step) ==> frame_steps(s, carets, facts).contains(step),
        pane_steps(facts.others@, s.focused_pane, s.panes@.len() as int).contains(step)
            ==> frame_steps(s, carets, facts).contains(step),
        head_steps(s).contains(step) ==> frame_steps(s, carets, facts).contains(step),
        panel_steps(s, facts).contains(step) ==> frame_steps(s, carets, facts).contains(step),
{
    let a = body_steps(s, carets, facts);
    let b = pane_steps(facts.others@, s.focused_pane, s.panes@.len() as int);
    let c = head_steps(s);
    let d = panel_steps(s, facts);
    let all = frame_steps(s, carets, facts);
    assert(all == a + b + c + d);
    if a.contains(step) {
        let k = a.index_of(step);
        assert(all[k] == step);
    }
    if b.contains(step) {
        let k = b.index_of(step);
        assert(all[a.len() + k] == step);
    }
    if c.contains(step) {
        let k = c.index_of(step);
        assert(all[a.len() + b.len() + k] == step);
    }
    if d.contains(step) {
        let k = d.index_of(step);
        assert(all[a.len() + b.len() + c.len() + k] == step);
    }
}

/// What is open is drawn: the find bar, the sidebar, the terminal, the field
/// for a line or a name, the palette, the strip of a reply; and the toolbar,
/// the tabs and the status line always.
pub proof fn what_is_open_is_drawn(s: State, carets: bool, facts: FrameFacts)
    ensures
        s.fields.find is Some ==> frame_steps(s, carets, facts).contains(Draw::FindBar),
        s.side.open ==> frame_steps(s, carets, facts).contains(Draw::Sidebar),
        s.side.open && s.git.open ==> frame_steps(s, carets, facts).contains(Draw::SourceControl),
        s.terminal.open ==> frame_steps(s, carets, facts).contains(Draw::Terminal),
        s.fields.goto_line is Some || s.fields.rename is Some ==> frame_steps(
            s,
            carets,
            facts,
        ).contains(Draw::Prompt),
        s.fields.palette is Some ==> frame_steps(s, carets, facts).contains(Draw::Palette),
        frame_steps(s, carets, facts).contains(Draw::Status),
        frame_steps(s, carets, facts).contains(Draw::Toolbar),
        frame_steps(s, carets, facts).contains(Draw::Tabs),
        s.git.open && s.git.showing_diff ==> frame_steps(s, carets, facts).contains(Draw::Diff),
{
    let panel = panel_steps(s, facts);
    let first = if s.fields.find is Some {
        seq![Draw::FindBar]
    } else {
        Seq::empty()
    };
    let side = side_steps(s, facts);
    let third = if s.terminal.open {
        seq![Draw::Terminal]
    } else {
        Seq::empty()
    };
    let over = over_steps(s);
    assert(panel == first + side + third + over);
    parts_are_drawn(s, carets, facts, Draw::FindBar);
    parts_are_drawn(s, carets, facts, Draw::Sidebar);
    parts_are_drawn(s, carets, facts, Draw::SourceControl);
    parts_are_drawn(s, carets, facts, Draw::Terminal);
    parts_are_drawn(s, carets, facts, Draw::Prompt);
    parts_are_drawn(s, carets, facts, Draw::Palette);
    parts_are_drawn(s, carets, facts, Draw::Status);
    parts_are_drawn(s, carets, facts, Draw::Toolbar);
    parts_are_drawn(s, carets, facts, Draw::Tabs);
    parts_are_drawn(s, carets, facts, Draw::Diff);
    if s.fields.find is Some {
        assert(panel[0] == Draw::FindBar);
    }
    if s.side.open {
        let hidden = ignored_steps(s, facts);
        let n = first.len() as int;
        let m = hidden.len() as int;
        assert(side[m] == Draw::Sidebar);
        assert(panel[n + m] == Draw::Sidebar);
        if s.git.open {
            assert(side[m + 1] == Draw::SourceControl);
            assert(panel[n + m + 1] == Draw::SourceControl);
        }
    }
    let n = (first.len() + side.len()) as int;
    if s.terminal.open {
        assert(third[0] == Draw::Terminal);
        assert(panel[n] == Draw::Terminal);
    }
    let m = n + third.len();
    assert(over[0] == Draw::Status);
    assert(panel[m] == Draw::Status);
    if s.fields.goto_line is Some || s.fields.rename is Some {
        assert(over[1] == Draw::Prompt);
        assert(panel[m + 1] == Draw::Prompt);
    }
    if s.fields.palette is Some {
        let k = over.len() - 1;
        assert(over[k] == Draw::Palette);
        assert(panel[m + k] == Draw::Palette);
    }
    assert(head_steps(s)[0] == Draw::Toolbar);
    assert(head_steps(s)[1] == Draw::Tabs);
    if diffing(s) {
        assert(body_steps(s, carets, facts)[0] == Draw::Diff);
    }
}

/// Everything a server has found in the text that is shown is underlined, each
/// once, errors in the colour of what is removed.
pub proof fn every_problem_is_underlined(s: State, carets: bool, facts: FrameFacts, i: int)
    requires
        !(s.git.open && s.git.showing_diff),
        !s.reviewing(),
        !s.pane.docs.at_home(),
        !s.rendered(),
        has_server(s),
        0 <= i < facts.found@.len(),
    ensures
        frame_steps(s, carets, facts).contains(
            Draw::Underline(i as usize, paint_of(facts.found@[i])),
        ),
        paint_of(Severity::Error) == Paint::DiffRemoved,
        paint_of(Severity::Warning) != paint_of(Severity::Error),
        paint_of(Severity::Hint) != paint_of(Severity::Error),
{
    let step = Draw::Underline(i as usize, paint_of(facts.found@[i]));
    let lines = line_steps(s, carets, facts.caret_visible);
    let under = underline_steps(facts.found@);
    let body = body_steps(s, carets, facts);
    assert(body == lines + under + hint_steps(s, facts.caret_visible));
    assert(under[i] == step);
    assert(body[lines.len() + i] == step);
    parts_are_drawn(s, carets, facts, step);
}

/// The text that is shown is drawn, with Git's marks when there are some, and
/// so is every other pane, each from where it is stored.
pub proof fn every_pane_is_drawn(s: State, carets: bool, facts: FrameFacts, k: int)
    requires
        0 <= k < facts.others@.len(),
        facts.others@[k] != s.focused_pane,
        facts.others@[k] <= s.panes@.len(),
        s.focused_pane <= s.panes@.len(),
    ensures
        frame_steps(s, carets, facts).contains(
            Draw::OtherPane(
                (if facts.others@[k] > s.focused_pane {
                    facts.others@[k] - 1
                } else {
                    facts.others@[k] as int
                }) as usize,
            ),
        ),
{
    let step = Draw::OtherPane(
        (if facts.others@[k] > s.focused_pane {
            facts.others@[k] - 1
        } else {
            facts.others@[k] as int
        }) as usize,
    );
    pane_steps_have(facts.others@, s.focused_pane, s.panes@.len() as int, k);
    parts_are_drawn(s, carets, facts, step);
}

/// Each pane that is stored has its step.
proof fn pane_steps_have(others: Seq<usize>, focused: usize, count: int, k: int)
    requires
        0 <= k < others.len(),
        stored_at(others[k], focused) < count,
    ensures
        pane_steps(others, focused, count).contains(
            Draw::OtherPane(stored_at(others[k], focused) as usize),
        ),
    decreases others.len(),
{
    let step = Draw::OtherPane(stored_at(others[k], focused) as usize);
    let head = others.drop_last();
    let all = pane_steps(others, focused, count);
    if k < head.len() {
        assert(head[k] == others[k]);
        pane_steps_have(head, focused, count, k);
        let before = pane_steps(head, focused, count);
        let m = before.index_of(step);
        assert(all[m] == step);
    } else {
        assert(all.last() == step);
    }
}

/// The carets blink only in the window with the keyboard and only when they
/// are to: they are on right after a key, and half a blink later they are the
/// other way round.
pub proof fn the_carets_blink(view: EditorView, key: bool, now: u64, later: u64)
    requires
        now >= view.state.frame.caret_since,
        later == now + pacing::CARET_BLINK,
    ensures
        !key || view.ivars.testing || !view.state.frame.caret_blink ==> carets_on(view, key, now),
        now - view.state.frame.caret_since < pacing::CARET_BLINK ==> carets_on(view, key, now),
        key && !view.ivars.testing && view.state.frame.caret_blink ==> carets_on(view, key, now)
            != carets_on(view, key, later),
{
    let since = now - view.state.frame.caret_since;
    let blink = pacing::CARET_BLINK as int;
    assert((since + blink) / blink == since / blink + 1) by (nonlinear_arith)
        requires
            blink > 0,
    ;
    if since < blink {
        assert(since / blink == 0) by (nonlinear_arith)
            requires
                0 <= since < blink,
        ;
    }
}

/// A rendered document starts at the block that is wanted, or at its last one
/// when it has fewer.
pub proof fn a_rendering_starts_where_it_is_wanted(at: usize, blocks: usize)
    ensures
        at < blocks ==> first_block(Some(at), blocks) == at,
        0 < blocks <= at ==> first_block(Some(at), blocks) == blocks - 1,
        first_block(None, blocks) == 0,
{
}

} // verus!
