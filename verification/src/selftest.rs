//! Scripted runs: the steps of a script, what each does to the window, and the
//! report a script can ask for.

use crate::claude::Review;
use crate::completion::Candidate;
use crate::find::ProjectHit;
use crate::frame::Rect;
use crate::keys::Modifiers;
use crate::menu::{self, menu_action_for, Action, Menu};
use crate::mouse::Press;
use crate::panes::pane_count;
use crate::path::{self, file_name};
use crate::state::{EditorView, Spot, State, REACH};
use crate::terminal::TerminalTab;
use crate::text::{self, decimal, joined, joined3, quoted};
use vstd::prelude::*;
use vstd::string::*;

verus! {

/// A step of a script. Measures are hundredths of a point.
pub enum Step {
    /// A click at an offset into a named region.
    ClickIn { name: String, dx: i32, dy: i32, count: usize, mods: Modifiers },
    Key { code: u16, mods: Modifiers, chars: String },
    Click { x: i32, y: i32, count: usize },
    /// A click in the middle of a named region.
    ClickNamed { name: String, count: usize },
    DownNamed { name: String },
    /// A drag to an offset from where the button went down.
    DragBy { dx: i32, dy: i32 },
    UpBy { dx: i32, dy: i32 },
    Down { x: i32, y: i32, count: usize },
    Drag { x: i32, y: i32 },
    Up { x: i32, y: i32 },
    Resize { width: i32, height: i32 },
    /// Make a sample file.
    Touch(String),
    /// Write a file as if another program had, a little later.
    Write(String, String),
    /// Turn the wheel by rows.
    Wheel(i64),
    Trackpad { x: i32, y: i32, dy: i32 },
    /// Sleep, in milliseconds, and take what has arrived.
    Wait(u64),
    /// Write the report.
    Dump(String),
    Panic,
    Quit,
}

/// What a step does.
pub enum Move {
    Press(Press),
    Dragged(Spot),
    Released(Spot),
    /// A menu item's action.
    Perform(Action),
    /// A key for the window.
    Key(u16, Modifiers, String),
    Resize(i32, i32),
    Redraw,
    /// Write a file: its place, its text, and whether it is to look newer.
    WriteFile(String, String, bool),
    /// Say that a step could not be played.
    Complain(String),
    PaletteWheel(i64),
    /// Scroll what is under a point, as a trackpad does.
    Trackpad(Spot, i32),
    Sleep(u64),
    /// Take what has arrived.
    Poll,
    Report(String),
    Panic,
    Shutdown,
    Exit,
}

/// Plays a script: remembers where the button went down.
#[derive(Clone, Copy, PartialEq, Eq, Structural, Debug)]
pub struct Player {
    pub pointer: Spot,
}

/// A press at a point.
pub open spec fn press_at(x: int, y: int, clicks: usize, flags: Modifiers) -> Press {
    Press { x: x as i32, y: y as i32, clicks, flags, pressed: false }
}

/// A click at a point: the button goes down and comes up.
pub open spec fn click_at(x: int, y: int, clicks: usize, flags: Modifiers) -> Seq<Move> {
    seq![
        Move::Press(press_at(x, y, clicks, flags)),
        Move::Released(Spot { x: x as i32, y: y as i32 }),
    ]
}

/// The middle of a rectangle.
pub open spec fn middle(rect: Rect) -> (int, int) {
    (rect.x + rect.width / 2, rect.y + rect.height / 2)
}

/// What is said when there is no such region.
pub open spec fn no_region(name: Seq<char>) -> Seq<char> {
    "selftest: no region named "@ + name + " in this frame"@
}

/// Whether a step's measures can be added.
pub open spec fn step_near(step: Step) -> bool {
    match step {
        Step::ClickIn { dx, dy, .. } => near(dx) && near(dy),
        Step::Click { x, y, .. } => near(x) && near(y),
        Step::DragBy { dx, dy } => near(dx) && near(dy),
        Step::UpBy { dx, dy } => near(dx) && near(dy),
        Step::Down { x, y, .. } => near(x) && near(y),
        Step::Drag { x, y } => near(x) && near(y),
        Step::Up { x, y } => near(x) && near(y),
        _ => true,
    }
}

/// Whether a measure is in reach.
pub open spec fn near(v: i32) -> bool {
    -REACH <= v <= REACH
}

/// No modifiers.
pub open spec fn bare() -> Modifiers {
    Modifiers { command: false, shift: false, option: false, control: false }
}

/// What a step does, `target` being where the region it names is. A key goes to
/// the menu bar first, for its key equivalents, when Command is down.
pub open spec fn played(
    step: Step,
    target: Option<Rect>,
    bar: Seq<Menu>,
    palette: bool,
    pointer: Spot,
    moves: Seq<Move>,
) -> bool {
    match step {
        Step::ClickIn { name, dx, dy, count, mods } => match target {
            Some(rect) => moves == click_at(rect.x + dx, rect.y + dy, count, mods),
            None => complains(moves, no_region(name@)),
        },
        Step::ClickNamed { name, count } => match target {
            Some(rect) => moves == click_at(middle(rect).0, middle(rect).1, count, bare()),
            None => complains(moves, no_region(name@)),
        },
        Step::DownNamed { name } => match target {
            Some(rect) => moves == seq![
                Move::Press(press_at(middle(rect).0, middle(rect).1, 1, bare())),
            ],
            None => complains(moves, no_region(name@)),
        },
        Step::Key { code, mods, chars } => {
            let action = menu::action_in_bar(bar, chars@, mods);
            moves == (if mods.command && action is Some {
                seq![Move::Perform(action->0)]
            } else {
                seq![Move::Key(code, mods, chars)]
            })
        },
        Step::Click { x, y, count } => moves == click_at(x as int, y as int, count, bare()),
        Step::DragBy { dx, dy } => moves == seq![
            Move::Dragged(Spot { x: (pointer.x + dx) as i32, y: (pointer.y + dy) as i32 }),
        ],
        Step::UpBy { dx, dy } => moves == seq![
            Move::Released(Spot { x: (pointer.x + dx) as i32, y: (pointer.y + dy) as i32 }),
        ],
        Step::Down { x, y, count } => moves == seq![
            Move::Press(press_at(x as int, y as int, count, bare())),
        ],
        Step::Drag { x, y } => moves == seq![Move::Dragged(Spot { x, y })],
        Step::Up { x, y } => moves == seq![Move::Released(Spot { x, y })],
        Step::Resize { width, height } => moves == seq![
            Move::Resize(width, height),
            Move::Redraw,
        ],
        Step::Touch(path) => {
            &&& moves.len() == 1
            &&& moves[0] matches Move::WriteFile(place, text, later)
            &&& place == path
            &&& text@ == "personal sample\n"@
            &&& !later
        },
        Step::Write(path, text) => {
            &&& moves.len() == 1
            &&& moves[0] matches Move::WriteFile(place, written, later)
            &&& place == path
            &&& written@ == text@ + "\n"@
            &&& later
        },
        Step::Wheel(rows) => if palette {
            moves == seq![Move::PaletteWheel(rows)]
        } else {
            complains(moves, "selftest: wheel only drives the palette"@)
        },
        Step::Trackpad { x, y, dy } => moves == seq![Move::Trackpad(Spot { x, y }, dy)],
        Step::Wait(ms) => moves == seq![Move::Sleep(ms), Move::Poll],
        Step::Dump(path) => moves == seq![Move::Report(path)],
        Step::Panic => moves == seq![Move::Panic],
        Step::Quit => moves == seq![Move::Shutdown, Move::Exit],
    }
}

/// Whether the only move is to say `what`.
pub open spec fn complains(moves: Seq<Move>, what: Seq<char>) -> bool {
    &&& moves.len() == 1
    &&& moves[0] matches Move::Complain(said)
    &&& said@ == what
}

/// Where the button went down, after a step.
pub open spec fn pointer_after(step: Step, target: Option<Rect>, pointer: Spot) -> Spot {
    match step {
        Step::DownNamed { .. } => match target {
            Some(rect) => Spot { x: middle(rect).0 as i32, y: middle(rect).1 as i32 },
            None => pointer,
        },
        Step::Down { x, y, .. } => Spot { x, y },
        _ => pointer,
    }
}

/// A press that a script makes.
fn press(x: i32, y: i32, clicks: usize, flags: Modifiers) -> (m: Move)
    ensures
        m == Move::Press(press_at(x as int, y as int, clicks, flags)),
{
    Move::Press(Press { x, y, clicks, flags, pressed: false })
}

/// No modifiers.
fn plain() -> (m: Modifiers)
    ensures
        m == bare(),
{
    Modifiers { command: false, shift: false, option: false, control: false }
}

/// A click that a script makes.
fn click(x: i32, y: i32, clicks: usize, flags: Modifiers) -> (moves: Vec<Move>)
    ensures
        moves@ == click_at(x as int, y as int, clicks, flags),
{
    let mut moves: Vec<Move> = Vec::new();
    moves.push(press(x, y, clicks, flags));
    moves.push(Move::Released(Spot { x, y }));
    assert(moves@ =~= click_at(x as int, y as int, clicks, flags));
    moves
}

/// One move.
fn one(m: Move) -> (moves: Vec<Move>)
    ensures
        moves@ == seq![m],
{
    let mut moves: Vec<Move> = Vec::new();
    moves.push(m);
    assert(moves@ =~= seq![m]);
    moves
}

/// Two moves.
fn two(a: Move, b: Move) -> (moves: Vec<Move>)
    ensures
        moves@ == seq![a, b],
{
    let mut moves: Vec<Move> = Vec::new();
    moves.push(a);
    moves.push(b);
    assert(moves@ =~= seq![a, b]);
    moves
}

/// Says that there is no region of that name.
fn missing(name: &str) -> (moves: Vec<Move>)
    ensures
        complains(moves@, no_region(name@)),
{
    one(Move::Complain(joined3("selftest: no region named ", name, " in this frame")))
}

impl Player {
    /// Plays one step. `target` is where the region that the step names is,
    /// `bar` the menu bar, and `palette` whether the palette is open.
    ///
    /// The menu item is found and its action sent here, rather than through
    /// the window that has the keyboard: a test instance launched behind
    /// whatever a person is using often does not.
    pub fn play(&mut self, step: Step, target: Option<Rect>, bar: &Vec<Menu>, palette: bool) -> (
        moves: Vec<Move>)
        requires
            step_near(step),
            target matches Some(rect) ==> rect.near(),
            near(old(self).pointer.x),
            near(old(self).pointer.y),
        ensures
            played(step, target, bar@, palette, old(self).pointer, moves@),
            final(self).pointer == pointer_after(step, target, old(self).pointer),
    {
        match step {
            Step::ClickIn { name, dx, dy, count, mods } => match target {
                Some(rect) => click(rect.x + dx, rect.y + dy, count, mods),
                None => missing(name.as_str()),
            },
            Step::ClickNamed { name, count } => match target {
                Some(rect) => click(
                    rect.x + rect.width / 2,
                    rect.y + rect.height / 2,
                    count,
                    plain(),
                ),
                None => missing(name.as_str()),
            },
            Step::DownNamed { name } => match target {
                Some(rect) => {
                    let x = rect.x + rect.width / 2;
                    let y = rect.y + rect.height / 2;
                    self.pointer = Spot { x, y };
                    one(press(x, y, 1, plain()))
                },
                None => missing(name.as_str()),
            },
            Step::Key { code, mods, chars } => {
                if mods.command {
                    if let Some(action) = menu_action_for(bar, chars.as_str(), mods) {
                        return one(Move::Perform(action));
                    }
                }
                one(Move::Key(code, mods, chars))
            },
            Step::Click { x, y, count } => click(x, y, count, plain()),
            Step::DragBy { dx, dy } => one(
                Move::Dragged(Spot { x: self.pointer.x + dx, y: self.pointer.y + dy }),
            ),
            Step::UpBy { dx, dy } => one(
                Move::Released(Spot { x: self.pointer.x + dx, y: self.pointer.y + dy }),
            ),
            Step::Down { x, y, count } => {
                self.pointer = Spot { x, y };
                one(press(x, y, count, plain()))
            },
            Step::Drag { x, y } => one(Move::Dragged(Spot { x, y })),
            Step::Up { x, y } => one(Move::Released(Spot { x, y })),
            Step::Resize { width, height } => two(Move::Resize(width, height), Move::Redraw),
            Step::Touch(path) => one(
                Move::WriteFile(path, "personal sample\n".to_owned(), false),
            ),
            Step::Write(path, text) => one(
                Move::WriteFile(path, joined(text.as_str(), "\n"), true),
            ),
            Step::Wheel(rows) => if palette {
                one(Move::PaletteWheel(rows))
            } else {
                one(Move::Complain("selftest: wheel only drives the palette".to_owned()))
            },
            Step::Trackpad { x, y, dy } => one(Move::Trackpad(Spot { x, y }, dy)),
            Step::Wait(ms) => two(Move::Sleep(ms), Move::Poll),
            Step::Dump(path) => one(Move::Report(path)),
            Step::Panic => one(Move::Panic),
            Step::Quit => two(Move::Shutdown, Move::Exit),
        }
    }
}

/// A script never claims that somebody really pressed: what it plays is heard
/// by a scripted run, which hears nothing else.
pub proof fn a_script_is_heard(
    step: Step,
    target: Option<Rect>,
    bar: Seq<Menu>,
    palette: bool,
    pointer: Spot,
    moves: Seq<Move>,
    i: int,
)
    requires
        played(step, target, bar, palette, pointer, moves),
        0 <= i < moves.len(),
    ensures
        moves[i] matches Move::Press(press) ==> !press.pressed,
{
}

/// How Git sees a row of the tree.
#[derive(Clone, Copy, PartialEq, Eq, Structural, Debug)]
pub enum Ignored {
    No,
    /// The row itself is ignored.
    Here,
    /// A folder around it is.
    Inside,
    /// It is only looked at.
    Preview,
}

/// What a report needs that is kept elsewhere.
pub struct ReportFacts {
    /// The branch, as the status line words it.
    pub branch: String,
    /// The parameter the caret is in, of the signature that is shown.
    pub parameter: Option<String>,
    /// Text on screen is still without its shapes.
    pub unshaped: bool,
    /// How Git sees the rows of the tree.
    pub ignored: Vec<Ignored>,
    pub changes: usize,
    pub staged: usize,
    pub hunks_staged: usize,
    pub hunks_working: usize,
    /// How long the last click took, in milliseconds, as text.
    pub click_time: String,
    pub finder_entries: usize,
    /// The title of the palette's first row.
    pub first_row: Option<String>,
    /// Each server with what it is doing.
    pub servers: Vec<String>,
    pub diagnostics: usize,
    pub window_title: String,
    pub shaping_pending: bool,
    pub caret_shaped: bool,
    /// How tall the terminal is, as text.
    pub height: String,
    /// The text selected in the terminal.
    pub selection: Option<String>,
    /// The text on the terminal's screen.
    pub screen: String,
    /// What there is to say about the document; it ends with its text.
    pub document: String,
}

/// A line of the report.
pub open spec fn line_of(label: Seq<char>, value: Seq<char>) -> Seq<char> {
    label + ": "@ + value + "\n"@
}

/// A truth value in words.
pub open spec fn truth(b: bool) -> Seq<char> {
    if b {
        "true"@
    } else {
        "false"@
    }
}

/// Texts with `between` between them.
pub open spec fn strung(parts: Seq<Seq<char>>, between: Seq<char>) -> Seq<char>
    decreases parts.len(),
{
    if parts.len() == 0 {
        Seq::empty()
    } else if parts.len() == 1 {
        parts[0]
    } else {
        strung(parts.drop_last(), between) + between + parts.last()
    }
}

/// The text, or nothing.
pub open spec fn text_or_empty(text: Option<String>) -> Seq<char> {
    match text {
        Some(text) => text@,
        None => Seq::empty(),
    }
}

/// A hit by the name of its file and its line.
pub open spec fn hit_words(hit: ProjectHit) -> Seq<char> {
    let name = match path::file_name_of(hit.path@) {
        Some(name) => name,
        None => Seq::empty(),
    };
    name + ":"@ + text::decimal_digits((hit.line + 1) as nat)
}

/// The letter for how Git sees a row.
pub open spec fn ignored_letter(row: Ignored) -> Seq<char> {
    match row {
        Ignored::No => "-"@,
        Ignored::Here => "H"@,
        Ignored::Inside => "I"@,
        Ignored::Preview => "P"@,
    }
}

/// How many reviews nobody has answered.
pub open spec fn undecided(rows: Seq<(u64, Review)>) -> nat
    decreases rows.len(),
{
    if rows.len() == 0 {
        0
    } else {
        undecided(rows.drop_last()) + if rows.last().1.decided {
            0nat
        } else {
            1nat
        }
    }
}

/// The signature, with the parameter the caret is in.
pub open spec fn signature_words(s: State, facts: ReportFacts) -> Seq<char> {
    match s.hints.signature {
        Some(tip) => match facts.parameter {
            Some(parameter) => tip.label@ + " ["@ + parameter@ + "]"@,
            None => tip.label@,
        },
        None => Seq::empty(),
    }
}

/// Why the selected completion is offered.
pub open spec fn completion_why(s: State) -> Seq<char> {
    match s.hints.completion {
        Some(popup) => if popup.selected < popup.shown@.len() {
            popup.shown@[popup.selected as int].why@
        } else {
            Seq::empty()
        },
        None => Seq::empty(),
    }
}

/// The completions that are shown.
pub open spec fn completion_words(s: State) -> Seq<char> {
    match s.hints.completion {
        Some(popup) => strung(popup.shown@.map_values(|c: Candidate| c.label@), "|"@),
        None => Seq::empty(),
    }
}

/// The assistant's line. It is labelled with the command that runs it.
pub open spec fn assistant_words(s: State) -> Seq<char> {
    match s.claude.bridge {
        Some(bridge) => "connected="@ + truth(bridge.connected) + " reviews="@
            + text::decimal_digits(bridge.reviews.rows@.len()) + " pending="@
            + text::decimal_digits(undecided(bridge.reviews.rows@)),
        None => "off"@,
    }
}

/// The terminal's line.
pub open spec fn terminal_words(s: State, facts: ReportFacts) -> Seq<char> {
    "open="@ + truth(s.terminal.open) + " focus="@ + truth(s.terminal.focus) + " height="@
        + facts.height@ + " tabs="@ + strung(
        s.terminal.tabs@.map_values(|t: TerminalTab| t.title@),
        "|"@,
    ) + " selection="@ + (match facts.selection {
        Some(text) => "Some("@ + text::debug_quoted(text@) + ")"@,
        None => "None"@,
    }) + " screen="@ + text::debug_quoted(facts.screen@)
}

/// The first part of the report: what is said and offered.
pub open spec fn first_lines(s: State, facts: ReportFacts) -> Seq<char> {
    line_of("message"@, match s.status.message {
        Some(note) => note.text@,
        None => Seq::empty(),
    }) + line_of("branch"@, facts.branch@) + line_of("blame"@, match s.gutter.blame {
        Some(blame) => blame.text@,
        None => Seq::empty(),
    }) + line_of("find_results"@, match s.fields.find {
        Some(bar) => strung(bar.results@.map_values(|h: ProjectHit| hit_words(h)), "|"@),
        None => Seq::empty(),
    }) + line_of("signature"@, signature_words(s, facts)) + line_of(
        "rename"@,
        match s.fields.rename {
            Some(rename) => rename.field.text@,
            None => Seq::empty(),
        },
    ) + line_of("read_only"@, truth(s.pane.docs.front().read_only)) + line_of(
        "unshaped"@,
        truth(facts.unshaped),
    ) + line_of(
        "ignored_rows"@,
        strung(facts.ignored@.map_values(|row: Ignored| ignored_letter(row)), ""@),
    ) + line_of("completion_why"@, completion_why(s))
}

/// The lines about source control.
pub open spec fn git_lines(s: State, facts: ReportFacts) -> Seq<char> {
    line_of("git_open"@, truth(s.git.open)) + line_of("git_focus"@, truth(s.git.focus)) + line_of(
        "git_diff"@,
        truth(s.git.showing_diff),
    ) + line_of("git_pending"@, truth(s.git.busy)) + line_of(
        "git_changes"@,
        text::decimal_digits(facts.changes as nat),
    ) + line_of("git_staged"@, text::decimal_digits(facts.staged as nat)) + line_of(
        "git_hunks_staged"@,
        text::decimal_digits(facts.hunks_staged as nat),
    ) + line_of("git_hunks_working"@, text::decimal_digits(facts.hunks_working as nat)) + line_of(
        "git_message"@,
        s.git.message.text@,
    )
}

/// The lines about the fields and the panes.
pub open spec fn field_lines(s: State, facts: ReportFacts) -> Seq<char> {
    line_of("project_menu_requested"@, truth(s.status.project_menu_requested)) + line_of(
        "last_click_ms"@,
        facts.click_time@,
    ) + line_of("finder_entries"@, text::decimal_digits(facts.finder_entries as nat)) + line_of(
        "sidebar_edit"@,
        match s.fields.sidebar_edit {
            Some(edit) => edit.field.text@,
            None => Seq::empty(),
        },
    ) + line_of("palette_query"@, match s.fields.palette {
        Some(palette) => palette.query.text@,
        None => Seq::empty(),
    }) + line_of("palette_first"@, if s.fields.palette is Some {
        text_or_empty(facts.first_row)
    } else {
        Seq::empty()
    }) + line_of("palette_scroll"@, text::decimal_digits(s.fields.palette_scroll as nat)) + line_of(
        "panes"@,
        text::decimal_digits((s.panes@.len() + 1) as nat),
    ) + line_of("focused_pane"@, text::decimal_digits(s.focused_pane as nat))
}

/// The lines about the servers, the frame and the sessions.
pub open spec fn last_lines(view: EditorView, facts: ReportFacts) -> Seq<char> {
    let s = view.state;
    line_of("lsp"@, strung(facts.servers@.map_values(|name: String| name@), ", "@)) + line_of(
        "diagnostics"@,
        text::decimal_digits(facts.diagnostics as nat),
    ) + line_of("completion"@, completion_words(s)) + line_of(
        "key_handler_draws"@,
        text::decimal_digits(view.ivars.draws_during_key_handler as nat),
    ) + line_of("window_title"@, facts.window_title@) + line_of(
        "shaping_pending"@,
        truth(facts.shaping_pending),
    ) + line_of("caret_shaped"@, truth(facts.caret_shaped)) + line_of(
        s.claude.assistant.command@,
        assistant_words(s),
    ) + line_of("terminal"@, terminal_words(s, facts))
}

/// Writes a line of the report.
fn line(out: String, label: &str, value: &str) -> (s: String)
    ensures
        s@ == out@ + line_of(label@, value@),
{
    let mut s = out;
    s.append(label);
    s.append(": ");
    s.append(value);
    s.append("\n");
    assert(s@ =~= out@ + line_of(label@, value@));
    s
}

/// The first line of a part of the report.
fn first_line(label: &str, value: &str) -> (s: String)
    ensures
        s@ == line_of(label@, value@),
{
    let s = line(String::new(), label, value);
    assert(s@ =~= line_of(label@, value@));
    s
}

/// See [`truth`].
fn truth_word(b: bool) -> (s: &'static str)
    ensures
        s@ == truth(b),
{
    if b {
        "true"
    } else {
        "false"
    }
}

/// Adds one more text to those strung so far.
proof fn strung_grows(parts: Seq<Seq<char>>, between: Seq<char>, more: Seq<char>)
    ensures
        strung(parts.push(more), between) == if parts.len() == 0 {
            more
        } else {
            strung(parts, between) + between + more
        },
{
    assert(parts.push(more).drop_last() =~= parts);
}

/// Puts `next` after what is strung so far.
fn string_on(out: String, first: bool, between: &str, next: &str) -> (s: String)
    ensures
        s@ == if first {
            next@
        } else {
            out@ + between@ + next@
        },
{
    if first {
        next.to_owned()
    } else {
        joined3(out.as_str(), between, next)
    }
}

/// See [`hit_words`].
fn hit_text(hit: &ProjectHit) -> (s: String)
    requires
        hit.line < usize::MAX,
    ensures
        s@ == hit_words(*hit),
{
    let number = decimal(hit.line + 1);
    let s = match file_name(hit.path.as_str()) {
        Some(name) => joined3(name.as_str(), ":", number.as_str()),
        None => joined3("", ":", number.as_str()),
    };
    proof {
        reveal_strlit("");
        assert(""@ =~= Seq::<char>::empty());
    }
    s
}

/// The hits, each by file and line.
fn hits_text(hits: &Vec<ProjectHit>) -> (s: String)
    requires
        forall|i: int| 0 <= i < hits@.len() ==> (#[trigger] hits@[i]).line < usize::MAX,
    ensures
        s@ == strung(hits@.map_values(|h: ProjectHit| hit_words(h)), "|"@),
{
    let ghost words = hits@.map_values(|h: ProjectHit| hit_words(h));
    let mut out = String::new();
    let mut i: usize = 0;
    while i < hits.len()
        invariant
            i <= hits@.len(),
            words == hits@.map_values(|h: ProjectHit| hit_words(h)),
            forall|i: int| 0 <= i < hits@.len() ==> (#[trigger] hits@[i]).line < usize::MAX,
            out@ == strung(words.take(i as int), "|"@),
        decreases hits@.len() - i,
    {
        let next = hit_text(&hits[i]);
        out = string_on(out, i == 0, "|", next.as_str());
        proof {
            assert(words.take(i + 1) =~= words.take(i as int).push(words[i as int]));
            strung_grows(words.take(i as int), "|"@, words[i as int]);
        }
        i += 1;
    }
    assert(words.take(i as int) =~= words);
    out
}

/// The labels of the candidates.
fn labels_text(shown: &Vec<Candidate>) -> (s: String)
    ensures
        s@ == strung(shown@.map_values(|c: Candidate| c.label@), "|"@),
{
    let ghost words = shown@.map_values(|c: Candidate| c.label@);
    let mut out = String::new();
    let mut i: usize = 0;
    while i < shown.len()
        invariant
            i <= shown@.len(),
            words == shown@.map_values(|c: Candidate| c.label@),
            out@ == strung(words.take(i as int), "|"@),
        decreases shown@.len() - i,
    {
        out = string_on(out, i == 0, "|", shown[i].label.as_str());
        proof {
            assert(words.take(i + 1) =~= words.take(i as int).push(words[i as int]));
            strung_grows(words.take(i as int), "|"@, words[i as int]);
        }
        i += 1;
    }
    assert(words.take(i as int) =~= words);
    out
}

/// The titles of the sessions.
fn titles_text(tabs: &Vec<TerminalTab>) -> (s: String)
    ensures
        s@ == strung(tabs@.map_values(|t: TerminalTab| t.title@), "|"@),
{
    let ghost words = tabs@.map_values(|t: TerminalTab| t.title@);
    let mut out = String::new();
    let mut i: usize = 0;
    while i < tabs.len()
        invariant
            i <= tabs@.len(),
            words == tabs@.map_values(|t: TerminalTab| t.title@),
            out@ == strung(words.take(i as int), "|"@),
        decreases tabs@.len() - i,
    {
        out = string_on(out, i == 0, "|", tabs[i].title.as_str());
        proof {
            assert(words.take(i + 1) =~= words.take(i as int).push(words[i as int]));
            strung_grows(words.take(i as int), "|"@, words[i as int]);
        }
        i += 1;
    }
    assert(words.take(i as int) =~= words);
    out
}

/// The servers, each with what it is doing.
fn servers_text(servers: &Vec<String>) -> (s: String)
    ensures
        s@ == strung(servers@.map_values(|name: String| name@), ", "@),
{
    let ghost words = servers@.map_values(|name: String| name@);
    let mut out = String::new();
    let mut i: usize = 0;
    while i < servers.len()
        invariant
            i <= servers@.len(),
            words == servers@.map_values(|name: String| name@),
            out@ == strung(words.take(i as int), ", "@),
        decreases servers@.len() - i,
    {
        out = string_on(out, i == 0, ", ", servers[i].as_str());
        proof {
            assert(words.take(i + 1) =~= words.take(i as int).push(words[i as int]));
            strung_grows(words.take(i as int), ", "@, words[i as int]);
        }
        i += 1;
    }
    assert(words.take(i as int) =~= words);
    out
}

/// A letter for each row of the tree.
fn ignored_text(rows: &Vec<Ignored>) -> (s: String)
    ensures
        s@ == strung(rows@.map_values(|row: Ignored| ignored_letter(row)), ""@),
{
    let ghost words = rows@.map_values(|row: Ignored| ignored_letter(row));
    let mut out = String::new();
    let mut i: usize = 0;
    while i < rows.len()
        invariant
            i <= rows@.len(),
            words == rows@.map_values(|row: Ignored| ignored_letter(row)),
            out@ == strung(words.take(i as int), ""@),
        decreases rows@.len() - i,
    {
        let letter = match rows[i] {
            Ignored::No => "-",
            Ignored::Here => "H",
            Ignored::Inside => "I",
            Ignored::Preview => "P",
        };
        out = string_on(out, i == 0, "", letter);
        proof {
            assert(words.take(i + 1) =~= words.take(i as int).push(words[i as int]));
            strung_grows(words.take(i as int), ""@, words[i as int]);
        }
        i += 1;
    }
    assert(words.take(i as int) =~= words);
    out
}

/// See [`undecided`].
fn count_undecided(rows: &Vec<(u64, Review)>) -> (n: usize)
    ensures
        n == undecided(rows@),
{
    let mut n: usize = 0;
    let mut i: usize = 0;
    while i < rows.len()
        invariant
            i <= rows@.len(),
            n <= i,
            n == undecided(rows@.take(i as int)),
        decreases rows@.len() - i,
    {
        assert(rows@.take(i + 1).drop_last() =~= rows@.take(i as int));
        if !rows[i].1.decided {
            n += 1;
        }
        i += 1;
    }
    assert(rows@.take(i as int) =~= rows@);
    n
}

/// The text of a field that may not be there.
fn text_of<'a>(text: &'a Option<String>) -> (s: &'a str)
    ensures
        s@ == text_or_empty(*text),
{
    proof {
        reveal_strlit("");
        assert(""@ =~= Seq::<char>::empty());
    }
    match text {
        Some(text) => text.as_str(),
        None => "",
    }
}

/// Strings one text after another.
fn chain(out: String, a: &str, b: &str) -> (s: String)
    ensures
        s@ == out@ + a@ + b@,
{
    joined3(out.as_str(), a, b)
}

impl EditorView {
    /// See [`signature_words`].
    fn signature_text(&self, facts: &ReportFacts) -> (s: String)
        ensures
            s@ == signature_words(self.state, *facts),
    {
        match &self.state.hints.signature {
            Some(tip) => match &facts.parameter {
                Some(parameter) => {
                    let s = joined(tip.label.as_str(), " [");
                    chain(s, parameter.as_str(), "]")
                },
                None => tip.label.clone(),
            },
            None => String::new(),
        }
    }

    /// See [`assistant_words`].
    fn assistant_text(&self) -> (s: String)
        ensures
            s@ == assistant_words(self.state),
    {
        match &self.state.claude.bridge {
            Some(bridge) => {
                let s = joined("connected=", truth_word(bridge.connected));
                let s = chain(s, " reviews=", decimal(bridge.reviews.rows.len()).as_str());
                chain(s, " pending=", decimal(count_undecided(&bridge.reviews.rows)).as_str())
            },
            None => "off".to_owned(),
        }
    }

    /// See [`terminal_words`].
    fn terminal_text(&self, facts: &ReportFacts) -> (s: String)
        ensures
            s@ == terminal_words(self.state, *facts),
    {
        let panel = &self.state.terminal;
        let selection = match &facts.selection {
            Some(text) => joined3("Some(", quoted(text.as_str()).as_str(), ")"),
            None => "None".to_owned(),
        };
        let s = joined("open=", truth_word(panel.open));
        let s = chain(s, " focus=", truth_word(panel.focus));
        let s = chain(s, " height=", facts.height.as_str());
        let s = chain(s, " tabs=", titles_text(&panel.tabs).as_str());
        let s = chain(s, " selection=", selection.as_str());
        chain(s, " screen=", quoted(facts.screen.as_str()).as_str())
    }

    /// See [`first_lines`].
    fn first_part(&self, facts: &ReportFacts) -> (out: String)
        requires
            self.state.wf(),
            self.state.fields.find matches Some(bar) ==> forall|i: int|
                0 <= i < bar.results@.len() ==> (#[trigger] bar.results@[i]).line < usize::MAX,
        ensures
            out@ == first_lines(self.state, *facts),
    {
        let state = &self.state;
        proof {
            reveal_strlit("");
            assert(""@ =~= Seq::<char>::empty());
        }
        let out = match &state.status.message {
            Some(note) => first_line("message", note.text.as_str()),
            None => first_line("message", ""),
        };
        let out = line(out, "branch", facts.branch.as_str());
        let out = match &state.gutter.blame {
            Some(blame) => line(out, "blame", blame.text.as_str()),
            None => line(out, "blame", ""),
        };
        let out = match &state.fields.find {
            Some(bar) => line(out, "find_results", hits_text(&bar.results).as_str()),
            None => line(out, "find_results", ""),
        };
        let out = line(out, "signature", self.signature_text(facts).as_str());
        let out = match &state.fields.rename {
            Some(rename) => line(out, "rename", rename.field.text.as_str()),
            None => line(out, "rename", ""),
        };
        let out = line(out, "read_only", truth_word(state.pane.docs.active().read_only));
        let out = line(out, "unshaped", truth_word(facts.unshaped));
        let out = line(out, "ignored_rows", ignored_text(&facts.ignored).as_str());
        match &state.hints.completion {
            Some(popup) => if popup.selected < popup.shown.len() {
                line(out, "completion_why", popup.shown[popup.selected].why.as_str())
            } else {
                line(out, "completion_why", "")
            },
            None => line(out, "completion_why", ""),
        }
    }

    /// See [`git_lines`].
    fn git_part(&self, facts: &ReportFacts) -> (out: String)
        ensures
            out@ == git_lines(self.state, *facts),
    {
        let git = &self.state.git;
        let out = first_line("git_open", truth_word(git.open));
        let out = line(out, "git_focus", truth_word(git.focus));
        let out = line(out, "git_diff", truth_word(git.showing_diff));
        let out = line(out, "git_pending", truth_word(git.busy));
        let out = line(out, "git_changes", decimal(facts.changes).as_str());
        let out = line(out, "git_staged", decimal(facts.staged).as_str());
        let out = line(out, "git_hunks_staged", decimal(facts.hunks_staged).as_str());
        let out = line(out, "git_hunks_working", decimal(facts.hunks_working).as_str());
        line(out, "git_message", git.message.text.as_str())
    }

    /// See [`field_lines`].
    fn field_part(&self, facts: &ReportFacts) -> (out: String)
        requires
            self.state.wf(),
        ensures
            out@ == field_lines(self.state, *facts),
    {
        let state = &self.state;
        proof {
            reveal_strlit("");
            assert(""@ =~= Seq::<char>::empty());
        }
        let out = first_line(
            "project_menu_requested",
            truth_word(state.status.project_menu_requested),
        );
        let out = line(out, "last_click_ms", facts.click_time.as_str());
        let out = line(out, "finder_entries", decimal(facts.finder_entries).as_str());
        let out = match &state.fields.sidebar_edit {
            Some(edit) => line(out, "sidebar_edit", edit.field.text.as_str()),
            None => line(out, "sidebar_edit", ""),
        };
        let out = match &state.fields.palette {
            Some(palette) => {
                let out = line(out, "palette_query", palette.query.text.as_str());
                line(out, "palette_first", text_of(&facts.first_row))
            },
            None => {
                let out = line(out, "palette_query", "");
                line(out, "palette_first", "")
            },
        };
        let out = line(out, "palette_scroll", decimal(state.fields.palette_scroll).as_str());
        let out = line(out, "panes", decimal(pane_count(state)).as_str());
        line(out, "focused_pane", decimal(state.focused_pane).as_str())
    }

    /// See [`last_lines`].
    fn last_part(&self, facts: &ReportFacts) -> (out: String)
        ensures
            out@ == last_lines(*self, *facts),
    {
        let state = &self.state;
        proof {
            reveal_strlit("");
            assert(""@ =~= Seq::<char>::empty());
        }
        let out = first_line("lsp", servers_text(&facts.servers).as_str());
        let out = line(out, "diagnostics", decimal(facts.diagnostics).as_str());
        let out = match &state.hints.completion {
            Some(popup) => line(out, "completion", labels_text(&popup.shown).as_str()),
            None => line(out, "completion", ""),
        };
        let out = line(
            out,
            "key_handler_draws",
            decimal(self.ivars.draws_during_key_handler).as_str(),
        );
        let out = line(out, "window_title", facts.window_title.as_str());
        let out = line(out, "shaping_pending", truth_word(facts.shaping_pending));
        let out = line(out, "caret_shaped", truth_word(facts.caret_shaped));
        let out = line(
            out,
            state.claude.assistant.command.as_str(),
            self.assistant_text().as_str(),
        );
        line(out, "terminal", self.terminal_text(facts).as_str())
    }

    /// The report a script asks for. It ends with what there is to say about
    /// the document, which ends with the document's text.
    pub fn report(&self, facts: &ReportFacts) -> (out: String)
        requires
            self.state.wf(),
            self.state.fields.find matches Some(bar) ==> forall|i: int|
                0 <= i < bar.results@.len() ==> (#[trigger] bar.results@[i]).line < usize::MAX,
        ensures
            out@ == first_lines(self.state, *facts) + git_lines(self.state, *facts) + field_lines(
                self.state,
                *facts,
            ) + last_lines(*self, *facts) + facts.document@,
    {
        let mut out = self.first_part(facts);
        out.append(self.git_part(facts).as_str());
        out.append(self.field_part(facts).as_str());
        out.append(self.last_part(facts).as_str());
        out.append(facts.document.as_str());
        out
    }
}

} // verus!
