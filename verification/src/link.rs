//! Once per display refresh, and what arrives in between.

use crate::buffer::Buffer;
use crate::git::{self, GitPanel};
use crate::path::path_eq;
use crate::settings;
use crate::state::{Answer, EditorView, Effect, Ivars, Pacing, State, Status, Task};
use crate::tabs::present;
use crate::text::{joined, joined3};
use vstd::prelude::*;
use vstd::string::*;

verus! {

/// How long a note stands in the status line, in milliseconds.
pub const NOTE_TIME: u64 = 4_000;

/// Whether a note has stood long enough.
pub open spec fn note_over(s: State, now: u64) -> bool {
    s.status.message matches Some(note) && now - note.at >= NOTE_TIME
}

/// Whether nothing is waiting for the display: the link may sleep.
pub open spec fn at_rest(view: EditorView) -> bool {
    let s = view.state;
    &&& !view.ivars.needs_redraw
    &&& s.status.message is None
    &&& !s.git.busy
    &&& s.drag.point is None
    &&& !s.project.searching
    &&& !s.project.indexing
    &&& s.http.in_flight is None
    &&& s.project.changed_at is None
    &&& s.project.git_changed_at is None
    &&& s.servers.dirty.rows@.len() == 0
    &&& s.gutter.dirty.rows@.len() == 0
    &&& s.gutter.pending@.len() == 0
    &&& s.project.reading@.len() == 0
    &&& (s.claude.bridge matches Some(bridge) ==> bridge.changed_at is None)
    &&& s.status.update is None
    &&& !s.project.reading_ignored
    &&& !s.gutter.asking
    &&& s.gutter.wish is None
}

impl EditorView {
    /// See [`at_rest`].
    fn may_sleep(&self) -> (r: bool)
        ensures
            r == at_rest(*self),
    {
        let s = &self.state;
        let heard = match &s.claude.bridge {
            Some(bridge) => bridge.changed_at.is_none(),
            None => true,
        };
        !self.ivars.needs_redraw && s.status.message.is_none() && !s.git.busy
            && s.drag.point.is_none() && !s.project.searching && !s.project.indexing
            && s.http.in_flight.is_none() && s.project.changed_at.is_none()
            && s.project.git_changed_at.is_none() && s.servers.dirty.rows.len() == 0
            && s.gutter.dirty.rows.len() == 0 && s.gutter.pending.len() == 0
            && s.project.reading.len() == 0 && heard && s.status.update.is_none()
            && !s.project.reading_ignored && !s.gutter.asking && s.gutter.wish.is_none()
    }

    /// This is `before` with the refresh interval learned, if it can be one,
    /// and a note that has stood long enough taken away.
    pub open spec fn ticks(&self, before: EditorView, interval: u64, now: u64) -> bool {
        let s = before.state;
        let over = note_over(s, now);
        &&& self.effects == before.effects
        &&& self.ivars == (Ivars { needs_redraw: before.ivars.needs_redraw || over, ..before.ivars })
        &&& self.state == (State {
            frame: Pacing {
                interval: if 0 < interval < 1_000_000 {
                    interval
                } else {
                    s.frame.interval
                },
                ..s.frame
            },
            status: Status {
                message: if over {
                    None
                } else {
                    s.status.message
                },
                ..s.status
            },
            ..s
        })
    }

    /// A display refresh, once everything that may have arrived was asked
    /// after. `interval` is how long the display says it takes between two, in
    /// microseconds.
    /// Returns whether the link may sleep; what is done when it may not is
    /// [`EditorView::refresh`].
    ///
    /// A note stands for a while and then goes by itself.
    pub fn on_display_link(&mut self, interval: u64, now: u64) -> (sleep: bool)
        requires
            old(self).state.wf(),
        ensures
            final(self).state.wf(),
            final(self).ticks(*old(self), interval, now),
            sleep == at_rest(*final(self)),
    {
        if 0 < interval && interval < 1_000_000 {
            self.state.frame.interval = interval;
        }
        let over = match &self.state.status.message {
            Some(note) => now >= note.at && now - note.at >= NOTE_TIME,
            None => false,
        };
        if over {
            self.state.status.message = None;
            self.ivars.needs_redraw = true;
        }
        self.may_sleep()
    }

    /// Ends a refresh that found something to do: `dragged` is whether a held
    /// selection went on. A frame is drawn when one is wanted.
    pub fn refresh(&mut self, dragged: bool)
        ensures
            old(self).state.wf() ==> final(self).state.wf(),
            ({
                let work = if dragged || old(self).ivars.needs_redraw {
                    seq![Effect::Draw]
                } else {
                    Seq::empty()
                };
                if dragged {
                    final(self).marks(*old(self), old(self).state, work)
                } else {
                    final(self).becomes(*old(self), old(self).state, work)
                }
            }),
    {
        if dragged {
            self.request_redraw();
        }
        if self.ivars.needs_redraw {
            self.ask(Effect::Draw);
        }
        assert(!dragged && !old(self).ivars.needs_redraw ==> self.effects@ =~= old(self).effects@
            + Seq::<Effect>::empty());
    }

    /// Git has answered, and may have something to say.
    pub fn git_polled(&mut self, changed: bool, note: Option<String>, now: u64)
        requires
            old(self).state.wf(),
        ensures
            final(self).state.wf(),
            ({
                let s = match note {
                    Some(text) => old(self).state.saying(crate::state::Note { text, at: now }),
                    None => old(self).state,
                };
                if changed {
                    final(self).marks(*old(self), s, seq![Effect::InvalidateCursorRects])
                } else {
                    final(self).becomes(*old(self), s, Seq::empty())
                }
            }),
    {
        if let Some(note) = note {
            self.say(note, now);
        }
        if changed {
            self.request_redraw();
            self.ask(Effect::InvalidateCursorRects);
        } else {
            assert(self.effects@ =~= old(self).effects@ + Seq::<Effect>::empty());
        }
    }
}

/// A note is never left standing: while one does, the display link does not
/// sleep.
pub proof fn a_note_keeps_the_link_awake(view: EditorView)
    requires
        view.state.status.message is Some,
    ensures
        !at_rest(view),
{
}

/// A newer release.
pub struct Release {
    pub version: String,
    pub url: String,
}

/// What an update check says: a launch check only when there is something new,
/// one that was asked for always.
pub open spec fn update_note(
    outcome: Result<Option<Release>, String>,
    asked: bool,
    testing: bool,
    current: Seq<char>,
) -> Option<Seq<char>> {
    match outcome {
        Ok(Some(release)) => Some(
            if !asked {
                "crc "@ + release.version@ + " is out: Help > Check for Updates opens its page"@
            } else if testing {
                "crc "@ + release.version@ + " is out; would open "@ + release.url@
            } else {
                "crc "@ + release.version@
                    + " is out; its release page is open in your browser"@
            },
        ),
        Ok(None) => if asked {
            Some("crc "@ + current + " is the latest release"@)
        } else {
            None
        },
        Err(error) => if asked {
            Some("could not check for updates: "@ + error@)
        } else {
            None
        },
    }
}

/// The page an update check opens: that of a newer release, when somebody
/// asked.
pub open spec fn opens_page(
    outcome: Result<Option<Release>, String>,
    asked: bool,
    testing: bool,
) -> Seq<Effect> {
    match outcome {
        Ok(Some(release)) => if asked && !testing {
            seq![Effect::OpenUrl(release.url)]
        } else {
            Seq::empty()
        },
        _ => Seq::empty(),
    }
}

impl EditorView {
    /// What an update check says.
    fn update_text(
        outcome: &Result<Option<Release>, String>,
        asked: bool,
        testing: bool,
        current: &str,
    ) -> (note: Option<String>)
        ensures
            match (note, update_note(*outcome, asked, testing, current@)) {
                (Some(note), Some(text)) => note@ == text,
                (None, None) => true,
                _ => false,
            },
    {
        match outcome {
            Ok(Some(release)) => {
                let head = joined("crc ", release.version.as_str());
                Some(
                    if !asked {
                        joined(
                            head.as_str(),
                            " is out: Help > Check for Updates opens its page",
                        )
                    } else if testing {
                        joined3(head.as_str(), " is out; would open ", release.url.as_str())
                    } else {
                        joined(
                            head.as_str(),
                            " is out; its release page is open in your browser",
                        )
                    },
                )
            },
            Ok(None) => if asked {
                Some(joined3("crc ", current, " is the latest release"))
            } else {
                None
            },
            Err(error) => if asked {
                Some(joined("could not check for updates: ", error.as_str()))
            } else {
                None
            },
        }
    }

    /// This is `before` with an update check's answer taken.
    pub open spec fn takes_update(
        &self,
        before: EditorView,
        outcome: Result<Option<Release>, String>,
        current: Seq<char>,
        now: u64,
    ) -> bool {
        let asked = before.state.status.update->0;
        let testing = before.ivars.testing;
        let done = State {
            status: Status { update: None, ..before.state.status },
            ..before.state
        };
        match update_note(outcome, asked, testing, current) {
            Some(text) => {
                &&& self.state.says(text, now)
                &&& self.shows(
                    before,
                    done.saying(self.state.status.message->0),
                    opens_page(outcome, asked, testing),
                    now,
                )
            },
            None => self.becomes(before, done, Seq::empty()),
        }
    }

    /// Takes a finished update check's answer, if there is one. `current` is
    /// this release.
    pub fn poll_update(
        &mut self,
        answer: Answer<Result<Option<Release>, String>>,
        current: &str,
        now: u64,
    )
        requires
            old(self).state.wf(),
        ensures
            final(self).state.wf(),
            old(self).state.status.update is None || answer is Waiting ==> *final(self) == *old(
                self,
            ),
            old(self).state.status.update is Some ==> match answer {
                Answer::Waiting => true,
                Answer::Came(outcome) => final(self).takes_update(
                    *old(self),
                    outcome,
                    current@,
                    now,
                ),
                Answer::Stopped => exists|error: String|
                    {
                        &&& error@ == "the check stopped"@
                        &&& #[trigger] final(self).takes_update(
                            *old(self),
                            Err(error),
                            current@,
                            now,
                        )
                    },
            },
    {
        let outcome = match answer {
            Answer::Came(outcome) => outcome,
            Answer::Waiting => {
                return;
            },
            Answer::Stopped => Err("the check stopped".to_owned()),
        };
        let ghost came = outcome;
        let asked = match self.state.status.update {
            Some(asked) => asked,
            None => {
                return;
            },
        };
        self.state.status.update = None;
        let testing = self.ivars.testing;
        let note = EditorView::update_text(&outcome, asked, testing, current);
        let ghost done = opens_page(outcome, asked, testing);
        match note {
            None => {
                assert(self.effects@ =~= old(self).effects@ + Seq::<Effect>::empty());
            },
            Some(note) => {
                self.say(note, now);
                if let Ok(Some(release)) = outcome {
                    if asked && !testing {
                        self.effects.push(Effect::OpenUrl(release.url));
                    }
                }
                assert(self.effects@ =~= old(self).effects@ + done);
                self.show(now);
                assert(self.effects@ =~= old(self).effects@ + (done + old(self).pumping(now)));
            },
        }
        assert(self.takes_update(*old(self), came, current@, now));
    }
}

/// A launch check opens no page and says nothing unless there is something
/// new.
pub proof fn a_launch_check_is_quiet(
    outcome: Result<Option<Release>, String>,
    testing: bool,
    current: Seq<char>,
)
    ensures
        opens_page(outcome, false, testing) == Seq::<Effect>::empty(),
        update_note(outcome, false, testing, current) is Some ==> (outcome matches Ok(found)
            && found is Some),
{
}

impl EditorView {
    /// What the window is called, and whether it shows unsaved changes.
    /// `title` is what the active tab is called. With nothing open the window
    /// is the app, not a document.
    pub fn sync_title(&self, title: String) -> (r: (String, bool))
        requires
            self.state.wf(),
        ensures
            r.0@ == (if self.state.pane.docs.at_home() {
                "crc"@
            } else {
                title@
            }),
            r.1 == self.state.pane.docs.front().dirty,
    {
        let dirty = self.state.pane.docs.active().dirty;
        if self.state.pane.docs.is_home() {
            ("crc".to_owned(), dirty)
        } else {
            (title, dirty)
        }
    }

    /// This is `before` with a file that was just made in a tab, and the
    /// keyboard with it.
    pub open spec fn opens_created(
        &self,
        before: EditorView,
        place: Seq<char>,
        key: Seq<char>,
        opened: Option<Buffer>,
        now: u64,
    ) -> bool {
        exists|said: EditorView, reread: EditorView|
            {
                &&& match opened {
                    Some(buffer) => settings::takes_front(
                        said.state.pane.docs,
                        before.state.pane.docs,
                        buffer,
                        key,
                    ),
                    None => said.state.pane.docs == before.state.pane.docs,
                }
                &&& said.state.says("created "@ + place, now)
                &&& #[trigger] said.becomes(
                    before,
                    before.state.with_docs(said.state.pane.docs).presented().saying(
                        said.state.status.message->0,
                    ),
                    Seq::empty(),
                )
                &&& #[trigger] reread.rereads(said)
                &&& self.becomes(
                    reread,
                    reread.state,
                    seq![
                        Effect::SyncTitle,
                        Effect::Run(Task::Reparse),
                        Effect::Run(Task::LspSyncOpen),
                    ],
                )
            }
    }

    /// A file just written to disk gets a tab and the keyboard; it may be open
    /// already. `key` is what the file system knows it as and `opened` what
    /// was read, if it could be.
    pub fn open_created_file(
        &mut self,
        place: &str,
        key: &str,
        opened: Option<Buffer>,
        now: u64,
    )
        requires
            old(self).state.wf(),
            opened matches Some(buffer) ==> buffer.wf(),
        ensures
            final(self).state.wf(),
            final(self).opens_created(*old(self), place@, key@, opened, now),
    {
        if let Some(buffer) = opened {
            match self.state.pane.docs.index_of(key) {
                Some(tab) => {
                    let shown = self.state.pane.docs.switch(tab);
                },
                None => {
                    self.state.pane.docs.push(buffer);
                },
            }
        }
        present(&mut self.state);
        self.say(joined("created ", place), now);
        let ghost said = *self;
        assert(said.effects@ =~= old(self).effects@ + Seq::<Effect>::empty());
        assert(said.becomes(
            *old(self),
            old(self).state.with_docs(said.state.pane.docs).presented().saying(
                said.state.status.message->0,
            ),
            Seq::empty(),
        ));
        self.refresh_project_after_disk_change();
        let ghost reread = *self;
        assert(reread.rereads(said));
        self.effects.push(Effect::SyncTitle);
        self.effects.push(Effect::Run(Task::Reparse));
        self.effects.push(Effect::Run(Task::LspSyncOpen));
        assert(self.effects@ =~= reread.effects@ + seq![
            Effect::SyncTitle,
            Effect::Run(Task::Reparse),
            Effect::Run(Task::LspSyncOpen),
        ]);
    }
}

/// How making a file with the save panel went.
pub enum Made {
    /// It could not be written.
    Failed(String),
    /// It was, and could not be read back.
    Unread(String),
    Read(Buffer),
}

impl EditorView {
    /// This is `before` after New File with the save panel.
    pub open spec fn makes_file(&self, before: EditorView, made: Made, key: Seq<char>, now: u64) -> bool {
        let indexing = State {
            project: crate::state::Project { indexing: true, ..before.state.project },
            ..before.state
        };
        let work = seq![
            Effect::RefreshIndex(before.state.project.tree_version),
            Effect::ResumeDisplayLink,
            Effect::SyncTitle,
        ];
        match made {
            Made::Failed(error) => {
                &&& self.state.says("could not create: "@ + error@, now)
                &&& self.becomes(
                    before,
                    before.state.saying(self.state.status.message->0),
                    Seq::empty(),
                )
            },
            Made::Unread(error) => {
                &&& self.state.says("created but not opened: "@ + error@, now)
                &&& self.becomes(
                    before,
                    indexing.presented().saying(self.state.status.message->0),
                    work,
                )
            },
            Made::Read(buffer) => {
                let docs = self.state.pane.docs;
                &&& settings::takes_front(docs, before.state.pane.docs, buffer, key)
                &&& self.becomes(before, indexing.with_docs(docs).presented(), work)
            },
        }
    }

    /// The save panel named a new file, which gets its own tab. `key` is what
    /// the file system knows it as.
    pub fn new_file_with_panel(&mut self, made: Made, key: &str, now: u64)
        requires
            old(self).state.wf(),
            made matches Made::Read(buffer) ==> buffer.wf(),
        ensures
            final(self).state.wf(),
            final(self).makes_file(*old(self), made, key@, now),
    {
        match made {
            Made::Failed(error) => {
                self.say(joined("could not create: ", error.as_str()), now);
                assert(self.effects@ =~= old(self).effects@ + Seq::<Effect>::empty());
                return;
            },
            Made::Unread(error) => {
                self.say(joined("created but not opened: ", error.as_str()), now);
            },
            Made::Read(buffer) => match self.state.pane.docs.index_of(key) {
                Some(tab) => {
                    let shown = self.state.pane.docs.switch(tab);
                },
                None => {
                    self.state.pane.docs.push(buffer);
                },
            },
        }
        present(&mut self.state);
        self.state.project.indexing = true;
        self.effects.push(Effect::RefreshIndex(self.state.project.tree_version));
        self.effects.push(Effect::ResumeDisplayLink);
        self.effects.push(Effect::SyncTitle);
        assert(self.effects@ =~= old(self).effects@ + seq![
            Effect::RefreshIndex(old(self).state.project.tree_version),
            Effect::ResumeDisplayLink,
            Effect::SyncTitle,
        ]);
    }

    /// Commits what is staged when there is a message, and otherwise shows
    /// source control with the message field taking the keys. `ready` is
    /// whether there is something to commit and a message for it.
    pub fn action_git_commit(&mut self, ready: bool, now: u64)
        requires
            old(self).state.wf(),
        ensures
            final(self).state.wf(),
            if old(self).state.git.open && ready {
                final(self).shows(
                    *old(self),
                    old(self).state,
                    seq![Effect::Commit, Effect::ResumeDisplayLink],
                    now,
                )
            } else {
                exists|shown: EditorView|
                    {
                        &&& #[trigger] shown.has_git_view(*old(self), now)
                        &&& final(self).shows(
                            shown,
                            State {
                                git: GitPanel { focus: true, ..shown.state.git },
                                ..shown.state
                            },
                            seq![Effect::ResumeDisplayLink],
                            now,
                        )
                    }
            },
    {
        if self.state.git.open && ready {
            self.effects.push(Effect::Commit);
            self.effects.push(Effect::ResumeDisplayLink);
            let ghost done = seq![Effect::Commit, Effect::ResumeDisplayLink];
            assert(self.effects@ =~= old(self).effects@ + done);
            self.show(now);
            assert(self.effects@ =~= old(self).effects@ + (done + old(self).pumping(now)));
            return;
        }
        if !self.state.git.open {
            self.set_sidebar_view(true, now);
        }
        let ghost shown = *self;
        assert(shown.has_git_view(*old(self), now));
        self.state.git.focus = true;
        self.ask(Effect::ResumeDisplayLink);
        self.show(now);
        assert(self.effects@ =~= shown.effects@ + (seq![Effect::ResumeDisplayLink] + shown.pumping(
            now,
        )));
    }

    /// This is `before` with source control showing.
    pub open spec fn has_git_view(&self, before: EditorView, now: u64) -> bool {
        if before.state.git.open {
            *self == before
        } else {
            self.shows(
                before,
                before.state.with_sidebar_view(true),
                git::sidebar_view_work(before.state, true),
                now,
            )
        }
    }
}

/// What watching the project comes to.
pub enum Watch {
    /// There is no project: nothing is watched or indexed.
    Nothing,
    /// Watch this folder, and index it afresh or not.
    Folder(String, bool),
}

impl EditorView {
    /// What to watch. `indexed` is the folder an index is kept of.
    pub fn watch_project(&self, indexed: &Option<String>) -> (watch: Watch)
        ensures
            match self.state.side.tree.root {
                None => watch is Nothing,
                Some(root) => watch == Watch::Folder(
                    root,
                    !(*indexed matches Some(indexed) && crate::path::same_path(indexed@, root@)),
                ),
            },
    {
        match &self.state.side.tree.root {
            None => Watch::Nothing,
            Some(root) => {
                let same = match indexed {
                    Some(indexed) => path_eq(indexed.as_str(), root.as_str()),
                    None => false,
                };
                Watch::Folder(root.clone(), !same)
            },
        }
    }

    /// The window lost the keyboard, or a blink is due: blinking stops with
    /// the keyboard gone, and the caret must not be left in its off half.
    pub fn window_did_resign_key(&mut self, now: u64)
        requires
            old(self).state.wf(),
        ensures
            final(self).state.wf(),
            final(self).shows(*old(self), old(self).state, Seq::empty(), now),
    {
        self.show(now);
    }
}

} // verus!
