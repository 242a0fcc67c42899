//! The settings file, and what it changes.

use crate::buffer::Buffer;
use crate::documents::Documents;
use crate::folding::{apply_wrap, Columns};
use crate::panes::PaneStore;
use crate::state::{
    EditorView, Effect, Look, Pacing, Servers, State, Status, Task, ThemeChoice, WordWrap, REACH,
};
use crate::tabs::present;
use crate::text::{self, decimal, joined, joined3};
use vstd::prelude::*;

verus! {

/// What the settings file says.
pub struct Settings {
    pub font: String,
    /// The size of the code, in hundredths of a point.
    pub font_size: i32,
    pub theme: ThemeChoice,
    pub caret_blink: bool,
    pub update_check: bool,
    pub format_on_save: bool,
    pub word_wrap: WordWrap,
    pub ssh_auth_sock: Option<String>,
}

impl State {
    /// The state with another look.
    pub open spec fn with_look(self, look: Look) -> State {
        State { look, ..self }
    }

    /// Whether a theme is dark, with the system so or not.
    pub open spec fn is_dark(theme: ThemeChoice, system: bool) -> bool {
        match theme {
            ThemeChoice::System => system,
            ThemeChoice::Dark => true,
            ThemeChoice::Light => false,
        }
    }

    /// The state with what the settings say, but for the font.
    pub open spec fn settled(self, settings: Settings) -> State {
        State {
            look: Look {
                theme: settings.theme,
                ssh_auth_sock: settings.ssh_auth_sock,
                ..self.look
            },
            frame: Pacing { caret_blink: settings.caret_blink, ..self.frame },
            servers: Servers { format_on_save: settings.format_on_save, ..self.servers },
            status: Status { word_wrap: settings.word_wrap, ..self.status },
            ..self
        }
    }
}

/// What another font asks for.
pub open spec fn font_work(font: String, size: i32) -> Seq<Effect> {
    seq![Effect::BuildAtlas(font, size), Effect::Run(Task::FontApplied)]
}

impl EditorView {
    /// This is `before` with another font.
    pub open spec fn applies_font(&self, before: EditorView, font: String, size: i32) -> bool {
        self.becomes(
            before,
            before.state.with_look(Look { font, size, ..before.state.look }),
            font_work(font, size),
        )
    }

    /// Has the letters of `font` drawn at `size`, the rest of the window
    /// keeping its own.
    pub fn apply_font(&mut self, font: String, size: i32)
        requires
            old(self).state.wf(),
        ensures
            final(self).state.wf(),
            final(self).applies_font(*old(self), font, size),
    {
        self.effects.push(Effect::BuildAtlas(font.clone(), size));
        self.effects.push(Effect::Run(Task::FontApplied));
        self.state.look.font = font;
        self.state.look.size = size;
        assert(self.effects@ =~= old(self).effects@ + font_work(font, size));
    }
}

/// Whether `after` is `before` with its front wrapped for `cols`.
pub open spec fn rewraps(after: Documents, before: Documents, setting: WordWrap, cols: Columns) -> bool {
    after.fronts(before, before.front().wrapped(setting, cols))
}

/// Wraps the document in front for `cols`.
fn rewrap(docs: &mut Documents, setting: WordWrap, cols: Columns)
    requires
        old(docs).wf(),
    ensures
        final(docs).wf(),
        rewraps(*final(docs), *old(docs), setting, cols),
{
    let at = docs.active;
    apply_wrap(&mut docs.list[at], setting, cols);
    assert(docs.list@ =~= old(docs).list@.update(
        at as int,
        old(docs).front().wrapped(setting, cols),
    ));
}

/// Whether `after` is `before` with the front of every pane wrapped for `cols`.
pub open spec fn rewraps_all(after: State, before: State, cols: Columns) -> bool {
    let setting = before.status.word_wrap;
    &&& rewraps(after.pane.docs, before.pane.docs, setting, cols)
    &&& after.panes@.len() == before.panes@.len()
    &&& forall|i: int|
        0 <= i < before.panes@.len() ==> {
            &&& rewraps((#[trigger] after.panes@[i]).docs, before.panes@[i].docs, setting, cols)
            &&& after.panes@[i] == (PaneStore { docs: after.panes@[i].docs, ..before.panes@[i] })
        }
    &&& after == (State { panes: after.panes, ..before.with_docs(after.pane.docs) })
}

impl EditorView {
    /// The letters have another size, and a text area `cols` columns: fewer or
    /// more rows fit now.
    pub fn font_applied(&mut self, cols: Columns, now: u64)
        requires
            old(self).state.wf(),
        ensures
            final(self).state.wf(),
            exists|wrapped: State|
                {
                    &&& #[trigger] rewraps_all(wrapped, old(self).state, cols)
                    &&& final(self).shows(
                        *old(self),
                        wrapped,
                        seq![Effect::ClampScrolls, Effect::InvalidateCursorRects],
                        now,
                    )
                },
    {
        let setting = self.state.status.word_wrap;
        rewrap(&mut self.state.pane.docs, setting, cols);
        let ghost before = old(self).state;
        let mut i: usize = 0;
        while i < self.state.panes.len()
            invariant
                setting == before.status.word_wrap,
                before.wf(),
                i <= self.state.panes@.len() == before.panes@.len(),
                self.effects == old(self).effects,
                self.ivars == old(self).ivars,
                rewraps(self.state.pane.docs, before.pane.docs, setting, cols),
                self.state.pane.docs.wf(),
                self.state == (State {
                    panes: self.state.panes,
                    ..before.with_docs(self.state.pane.docs)
                }),
                forall|j: int|
                    0 <= j < i ==> {
                        &&& rewraps(
                            (#[trigger] self.state.panes@[j]).docs,
                            before.panes@[j].docs,
                            setting,
                            cols,
                        )
                        &&& self.state.panes@[j].docs.wf()
                        &&& self.state.panes@[j] == (PaneStore {
                            docs: self.state.panes@[j].docs,
                            ..before.panes@[j]
                        })
                    },
                forall|j: int|
                    i <= j < before.panes@.len() ==> #[trigger] self.state.panes@[j]
                        == before.panes@[j],
            decreases self.state.panes@.len() - i,
        {
            assert(self.state.panes@[i as int] == before.panes@[i as int]);
            rewrap(&mut self.state.panes[i].docs, setting, cols);
            i += 1;
        }
        let ghost wrapped = self.state;
        assert(rewraps_all(wrapped, before, cols));
        self.effects.push(Effect::ClampScrolls);
        self.effects.push(Effect::InvalidateCursorRects);
        let ghost done = seq![Effect::ClampScrolls, Effect::InvalidateCursorRects];
        assert(self.effects@ =~= old(self).effects@ + done);
        self.show(now);
        assert(self.effects@ =~= old(self).effects@ + (done + old(self).pumping(now)));
    }
}

/// A size within the bounds of the settings.
pub open spec fn size_within(size: int, least: int, most: int) -> int {
    if size < least {
        least
    } else if size > most {
        most
    } else {
        size
    }
}

impl EditorView {
    /// Cmd-= and friends: a new code size between `least` and `most`. Returns
    /// what the settings file is to remember, if the size is another.
    pub fn set_font_size(&mut self, size: i32, least: i32, most: i32) -> (saved: Option<Settings>)
        requires
            old(self).state.wf(),
            least <= most,
        ensures
            final(self).state.wf(),
            ({
                let look = old(self).state.look;
                let wanted = size_within(size as int, least as int, most as int);
                if wanted == look.size {
                    saved is None && *final(self) == *old(self)
                } else {
                    &&& final(self).applies_font(*old(self), look.font, wanted as i32)
                    &&& saved == Some(
                        Settings {
                            font: look.font,
                            font_size: wanted as i32,
                            theme: look.theme,
                            caret_blink: old(self).state.frame.caret_blink,
                            update_check: true,
                            format_on_save: old(self).state.servers.format_on_save,
                            word_wrap: old(self).state.status.word_wrap,
                            ssh_auth_sock: None,
                        },
                    )
                }
            }),
    {
        let size = if size < least {
            least
        } else if size > most {
            most
        } else {
            size
        };
        if size == self.state.look.size {
            return None;
        }
        let font = self.state.look.font.clone();
        self.apply_font(self.state.look.font.clone(), size);
        Some(
            Settings {
                font,
                font_size: size,
                theme: self.state.look.theme,
                caret_blink: self.state.frame.caret_blink,
                update_check: true,
                format_on_save: self.state.servers.format_on_save,
                word_wrap: self.state.status.word_wrap,
                ssh_auth_sock: None,
            },
        )
    }

    /// The settings file remembers the new size, or could not be written.
    pub fn size_saved(&mut self, result: Result<(), String>, now: u64)
        requires
            old(self).state.wf(),
            old(self).state.look.size >= 0,
        ensures
            final(self).state.wf(),
            ({
                let size = "font size "@ + text::decimal_digits(
                    (old(self).state.look.size / 100) as nat,
                );
                &&& match result {
                    Ok(_) => final(self).state.says(size, now),
                    Err(error) => final(self).state.says(size + ", not saved: "@ + error@, now),
                }
                &&& final(self).becomes(
                    *old(self),
                    old(self).state.saying(final(self).state.status.message->0),
                    Seq::empty(),
                )
            }),
    {
        let points = (self.state.look.size / 100) as usize;
        let size = joined("font size ", decimal(points).as_str());
        let note = match result {
            Ok(_) => size,
            Err(error) => joined3(size.as_str(), ", not saved: ", error.as_str()),
        };
        self.say(note, now);
        assert(self.effects@ =~= old(self).effects@ + Seq::<Effect>::empty());
    }
}

/// How opening the settings file went.
pub enum SettingsFile {
    /// It could not be made.
    Missing(String),
    /// It could not be read.
    Unreadable(String),
    Read(Buffer),
}

/// Whether `after` is `before` with `buffer` in front, in a tab of its own or
/// in the one that has `key` open.
pub open spec fn takes_front(after: Documents, before: Documents, buffer: Buffer, key: Seq<char>) -> bool {
    match before.position_at(key) {
        Some(tab) => after == (Documents { active: tab as usize, ..before }),
        None => if before.at_home() {
            after.list@ == seq![buffer] && after.active == 0
        } else {
            after.list@ == before.list@.push(buffer) && after.active == before.list@.len()
        },
    }
}

impl EditorView {
    /// This is `before` with the settings file opened, or the reason said.
    pub open spec fn opens_settings(
        &self,
        before: EditorView,
        file: SettingsFile,
        key: Seq<char>,
        now: u64,
    ) -> bool {
        let said = before.state.saying(self.state.status.message->0);
        match file {
            SettingsFile::Missing(error) => {
                &&& self.state.says("settings: "@ + error@, now)
                &&& self.becomes(before, said, Seq::empty())
            },
            SettingsFile::Unreadable(error) => {
                &&& self.state.says("settings: "@ + error@, now)
                &&& self.becomes(before, said, seq![Effect::SyncTitle, Effect::Run(Task::Reparse)])
            },
            SettingsFile::Read(buffer) => {
                let docs = self.state.pane.docs;
                &&& takes_front(docs, before.state.pane.docs, buffer, key)
                &&& self.becomes(
                    before,
                    before.state.with_docs(docs).presented(),
                    seq![Effect::SyncTitle, Effect::Run(Task::Reparse)],
                )
            },
        }
    }

    /// The settings file as a tab, made when there is none. `key` is what the
    /// file system knows it as.
    ///
    /// Straight into a tab, without adopting its folder as the project the way
    /// opening an ordinary file with no project would.
    pub fn open_settings(&mut self, file: SettingsFile, key: &str, now: u64)
        requires
            old(self).state.wf(),
            file matches SettingsFile::Read(buffer) ==> buffer.wf(),
        ensures
            final(self).state.wf(),
            final(self).opens_settings(*old(self), file, key@, now),
    {
        match file {
            SettingsFile::Missing(error) => {
                self.say(joined("settings: ", error.as_str()), now);
                assert(self.effects@ =~= old(self).effects@ + Seq::<Effect>::empty());
                return;
            },
            SettingsFile::Unreadable(error) => {
                self.say(joined("settings: ", error.as_str()), now);
            },
            SettingsFile::Read(buffer) => {
                match self.state.pane.docs.index_of(key) {
                    Some(tab) => {
                        let shown = self.state.pane.docs.switch(tab);
                    },
                    None => {
                        self.state.pane.docs.push(buffer);
                    },
                }
                present(&mut self.state);
            },
        }
        self.effects.push(Effect::SyncTitle);
        self.effects.push(Effect::Run(Task::Reparse));
        assert(self.effects@ =~= old(self).effects@ + seq![
            Effect::SyncTitle,
            Effect::Run(Task::Reparse),
        ]);
    }

    /// This is `before` with the colours picked for its theme.
    pub open spec fn applies_theme(&self, before: EditorView, system: bool) -> bool {
        let look = before.state.look;
        let dark = State::is_dark(look.theme, system);
        if look.dark == dark {
            self.becomes(before, before.state, seq![Effect::ForceAppearance(look.theme)])
        } else {
            self.marks(
                before,
                before.state.with_look(Look { dark, ..look }),
                seq![Effect::ForceAppearance(look.theme), Effect::InvalidateCursorRects],
            )
        }
    }

    /// Picks the colours from the settings and the system, and tells the
    /// window so its own alerts and menus agree.
    pub fn apply_theme(&mut self, system: bool)
        requires
            old(self).state.wf(),
        ensures
            final(self).state.wf(),
            final(self).applies_theme(*old(self), system),
    {
        let choice = self.state.look.theme;
        let dark = match choice {
            ThemeChoice::System => system,
            ThemeChoice::Dark => true,
            ThemeChoice::Light => false,
        };
        self.ask(Effect::ForceAppearance(choice));
        if self.state.look.dark == dark {
            return;
        }
        self.state.look.dark = dark;
        self.ask(Effect::InvalidateCursorRects);
        self.request_redraw();
        assert(self.effects@ =~= old(self).effects@ + seq![
            Effect::ForceAppearance(choice),
            Effect::InvalidateCursorRects,
        ]);
    }

    /// This is `before` with the font of the settings, if it has another.
    pub open spec fn letters(&self, before: EditorView, settings: Settings) -> bool {
        if settings.font@ != before.state.look.font@ || settings.font_size
            != before.state.look.size {
            self.applies_font(before, settings.font, settings.font_size)
        } else {
            *self == before
        }
    }

    /// This is `before` with the rest of the settings.
    pub open spec fn settles(&self, before: EditorView, settings: Settings) -> bool {
        self.becomes(before, before.state.settled(settings), Seq::empty())
    }

    /// Takes the font of the settings.
    fn letter(&mut self, settings: &Settings)
        requires
            old(self).state.wf(),
        ensures
            final(self).state.wf(),
            final(self).letters(*old(self), *settings),
    {
        if settings.font != self.state.look.font || settings.font_size != self.state.look.size {
            self.apply_font(settings.font.clone(), settings.font_size);
        }
    }

    /// Takes the rest of the settings.
    fn settle(&mut self, settings: Settings)
        requires
            old(self).state.wf(),
        ensures
            final(self).state.wf(),
            final(self).settles(*old(self), settings),
    {
        self.state.look.theme = settings.theme;
        self.state.look.ssh_auth_sock = settings.ssh_auth_sock;
        self.state.frame.caret_blink = settings.caret_blink;
        self.state.servers.format_on_save = settings.format_on_save;
        self.state.status.word_wrap = settings.word_wrap;
        assert(self.effects@ =~= old(self).effects@ + Seq::<Effect>::empty());
    }

    /// The settings file was just saved from a tab: what it says now applies.
    /// `system` is whether the system is dark.
    pub fn apply_settings_file(&mut self, settings: Settings, system: bool, now: u64)
        requires
            old(self).state.wf(),
        ensures
            final(self).state.wf(),
            exists|lettered: EditorView, settled: EditorView, themed: EditorView|
                {
                    &&& #[trigger] lettered.letters(*old(self), settings)
                    &&& #[trigger] settled.settles(lettered, settings)
                    &&& #[trigger] themed.applies_theme(settled, system)
                    &&& final(self).applied(themed, now)
                },
    {
        self.letter(&settings);
        self.settle(settings);
        self.apply_theme(system);
        let ghost themed = *self;
        self.say("settings applied".to_owned(), now);
        assert(self.effects@ =~= themed.effects@ + Seq::<Effect>::empty());
        assert(self.applied(themed, now));
    }

    /// This is `before`, saying that the settings apply.
    pub open spec fn applied(&self, before: EditorView, now: u64) -> bool {
        &&& self.state.says("settings applied"@, now)
        &&& self.becomes(
            before,
            before.state.saying(self.state.status.message->0),
            Seq::empty(),
        )
    }

    /// The system switched between light and dark, which is followed only when
    /// the settings say so.
    pub fn appearance_changed(&mut self, system: bool)
        requires
            old(self).state.wf(),
        ensures
            final(self).state.wf(),
            old(self).state.look.theme is System ==> final(self).applies_theme(*old(self), system),
            !(old(self).state.look.theme is System) ==> *final(self) == *old(self),
    {
        if self.state.look.theme == ThemeChoice::System {
            self.apply_theme(system);
        }
    }
}

/// A theme that is not the system's stays as it is whatever the system does.
pub proof fn a_chosen_theme_stays(theme: ThemeChoice, before: bool, after: bool)
    requires
        !(theme is System),
    ensures
        State::is_dark(theme, before) == State::is_dark(theme, after),
{
}

/// How the code gets larger or smaller.
#[derive(Clone, Copy, PartialEq, Eq, Structural, Debug)]
pub enum Zoom {
    In,
    Out,
    /// Back to the size the settings start from.
    Actual,
}

/// A point, in the hundredths that sizes are counted in.
pub const POINT: i32 = 100;

/// The size that a zoom asks for.
pub open spec fn zoomed(size: i32, zoom: Zoom, actual: i32) -> int {
    match zoom {
        Zoom::In => size + POINT,
        Zoom::Out => size - POINT,
        Zoom::Actual => actual as int,
    }
}

impl EditorView {
    /// Zoom In, Zoom Out and Actual Size: the size to ask
    /// [`set_font_size`](EditorView::set_font_size) for. `actual` is the size
    /// the settings start from.
    pub fn action_zoom(&self, zoom: Zoom, actual: i32) -> (size: i32)
        requires
            -REACH <= self.state.look.size <= REACH,
        ensures
            size == zoomed(self.state.look.size, zoom, actual),
    {
        match zoom {
            Zoom::In => self.state.look.size + POINT,
            Zoom::Out => self.state.look.size - POINT,
            Zoom::Actual => actual,
        }
    }
}

/// Zooming out undoes zooming in, as long as the size is within its bounds.
pub proof fn zooming_out_undoes_zooming_in(size: i32, actual: i32, least: i32, most: i32)
    requires
        least <= size <= most - POINT,
        -REACH <= size <= REACH,
    ensures
        size_within(
            zoomed(
                size_within(zoomed(size, Zoom::In, actual), least as int, most as int) as i32,
                Zoom::Out,
                actual,
            ),
            least as int,
            most as int,
        ) == size,
{
}

} // verus!
