//! Opening, closing, saving and reloading documents.

use crate::buffer::Buffer;
use crate::claude;
use crate::documents::Documents;
use crate::panes::{self, PaneStore};
use crate::sidebar::Tree;
use crate::state::{EditorView, Effect, Hints, Project, Side, State, Task};
use crate::tabs::{self, present, Discard};
use crate::text::{joined, joined3};
use vstd::prelude::*;
use vstd::string::*;

verus! {

/// What was found where a path leads.
pub enum Opened {
    Folder,
    File(Buffer),
    TooLarge(String),
    Failed(String),
}

impl State {
    /// The state with tab `docs` closed: its suggestions go, and the document
    /// now in front is shown as on coming there.
    pub open spec fn after_closing(self, docs: Documents) -> State {
        State {
            hints: Hints { completion: None, ..self.hints },
            ..self.with_docs(docs)
        }.presented()
    }

    /// The state with a folder adopted as the project.
    pub open spec fn adopting(self, folder: String) -> State {
        State {
            side: Side { tree: Tree { root: Some(folder), ..self.side.tree }, ..self.side },
            project: Project { indexing: true, ..self.project },
            ..self
        }
    }
}

impl EditorView {
    /// This is `before` with tab `index` closed. A pane whose last tab just
    /// closed goes with it, unless it is the only one.
    pub open spec fn finishes_close(
        &self,
        before: EditorView,
        index: int,
        blank: Buffer,
        now: u64,
    ) -> bool {
        exists|closed: EditorView|
            {
                &&& tabs::closes(
                    closed.state.pane.docs,
                    before.state.pane.docs,
                    index,
                    blank,
                )
                &&& #[trigger] closed.becomes(
                    before,
                    before.state.after_closing(closed.state.pane.docs),
                    tabs::goodbye(before.state.pane.docs, index),
                )
                &&& if closed.state.pane.docs.at_home() && closed.state.panes@.len() > 0 {
                    self.drops_pane(closed, now)
                } else {
                    self.shows(
                        closed,
                        closed.state,
                        seq![Effect::SyncTitle, Effect::Run(Task::Reparse)],
                        now,
                    )
                }
            }
    }

    /// Closes tab `index` for good.
    pub fn finish_close(&mut self, index: usize, blank: Buffer, now: u64)
        requires
            old(self).state.wf(),
            blank.wf(),
        ensures
            final(self).state.wf(),
            final(self).finishes_close(*old(self), index as int, blank, now),
    {
        let ghost before = *self;
        let closed = self.state.pane.docs.close(index, blank);
        if let Some(gone) = closed {
            if let Some(path) = gone.path {
                self.effects.push(Effect::DidClose(path));
            }
        }
        assert(self.effects@ =~= before.effects@ + tabs::goodbye(
            before.state.pane.docs,
            index as int,
        ));
        self.state.hints.completion = None;
        present(&mut self.state);
        let ghost mid = *self;
        assert(mid.becomes(
            before,
            before.state.after_closing(mid.state.pane.docs),
            tabs::goodbye(before.state.pane.docs, index as int),
        ));
        if self.state.pane.docs.is_home() && self.state.panes.len() > 0 {
            self.drop_focused_pane(now);
            return;
        }
        self.effects.push(Effect::SyncTitle);
        self.effects.push(Effect::Run(Task::Reparse));
        let ghost done = seq![Effect::SyncTitle, Effect::Run(Task::Reparse)];
        assert(self.effects@ =~= mid.effects@ + done);
        self.show(now);
        assert(self.effects@ =~= mid.effects@ + (done + mid.pumping(now)));
    }

    /// This is `before` with the review of tab `index` answered, if it was one.
    pub open spec fn answers_tab(&self, before: EditorView, index: int) -> bool {
        if index < before.state.pane.docs.list@.len() {
            let id = before.state.pane.docs.list@[index].id;
            &&& claude::drops_review(self.state, before.state, id)
            &&& self.ivars == before.ivars
            &&& self.effects@ == before.effects@ + claude::closing_answer(before.state, id)
        } else {
            *self == before
        }
    }

    /// This is `before` with tab `index` closed, or asked about.
    pub open spec fn closes_tab(
        &self,
        before: EditorView,
        index: int,
        blank: Buffer,
        asking: bool,
        now: u64,
    ) -> bool {
        let list = before.state.pane.docs.list@;
        &&& asking == (index < list.len() && list[index].dirty)
        &&& exists|answered: EditorView|
            {
                &&& #[trigger] answered.answers_tab(before, index)
                &&& if asking {
                    self.asks_about(answered, index)
                } else {
                    self.finishes_close(answered, index, blank, now)
                }
            }
    }

    /// Closes a tab, asking about unsaved changes first. Returns whether it is
    /// asking; see [`EditorView::close_answered`].
    ///
    /// Closing a review is answering it. The question is shown against the
    /// document being closed, which means switching to it first so that it
    /// names the right file.
    pub fn close_tab(&mut self, index: usize, blank: Buffer, now: u64) -> (asking: bool)
        requires
            old(self).state.wf(),
            blank.wf(),
        ensures
            final(self).state.wf(),
            final(self).closes_tab(*old(self), index as int, blank, asking, now),
    {
        if index >= self.state.pane.docs.len() {
            assert(self.answers_tab(*old(self), index as int));
            self.finish_close(index, blank, now);
            return false;
        }
        let id = self.state.pane.docs.list[index].id;
        let dirty = self.state.pane.docs.list[index].dirty;
        self.forget_review(id);
        let ghost answered = *self;
        assert(answered.answers_tab(*old(self), index as int));
        if dirty {
            let shown = self.state.pane.docs.switch(index);
            self.effects.push(Effect::SyncTitle);
            self.effects.push(Effect::AskAboutChanges);
            assert(self.effects@ =~= answered.effects@ + seq![
                Effect::SyncTitle,
                Effect::AskAboutChanges,
            ]);
            return true;
        }
        self.finish_close(index, blank, now);
        false
    }

    /// The question about closing tab `index` was answered: Cancel keeps it.
    pub fn close_answered(&mut self, index: usize, answer: Discard, blank: Buffer, now: u64)
        requires
            old(self).state.wf(),
            blank.wf(),
        ensures
            final(self).state.wf(),
            answer is Cancel ==> *final(self) == *old(self),
            !(answer is Cancel) ==> final(self).finishes_close(
                *old(self),
                index as int,
                blank,
                now,
            ),
    {
        match answer {
            Discard::Cancel => {},
            _ => self.finish_close(index, blank, now),
        }
    }
}

impl EditorView {
    /// Whether it is safe to close the active document: it has no unsaved
    /// changes, or the question about them was not answered with Cancel.
    pub fn confirm_discard(&self, answer: Discard) -> (r: bool)
        requires
            self.state.wf(),
        ensures
            r == (!self.state.pane.docs.front().dirty || !(answer is Cancel)),
    {
        if !self.state.pane.docs.active().dirty {
            return true;
        }
        match answer {
            Discard::Cancel => false,
            _ => true,
        }
    }
}

/// What the status line says about an opened document: anything about the
/// file that saving it will run into. `limit` is the size past which files
/// open read-only, in words.
pub open spec fn opened_note(b: Buffer, place: Seq<char>, limit: Seq<char>) -> Seq<char> {
    if b.read_only {
        "opened "@ + place + " read-only: it is over "@ + limit
    } else if b.windows_1252 {
        "opened "@ + place + " as Windows-1252; unsupported characters cannot be saved"@
    } else if b.mixed_endings {
        "opened "@ + place + " with mixed line endings"@
    } else {
        "opened "@ + place
    }
}

/// See [`opened_note`].
fn opened_text(b: &Buffer, place: &str, limit: &str) -> (s: String)
    ensures
        s@ == opened_note(*b, place@, limit@),
{
    if b.read_only {
        let mut s = joined3("opened ", place, " read-only: it is over ");
        s.append(limit);
        s
    } else if b.windows_1252 {
        joined3("opened ", place, " as Windows-1252; unsupported characters cannot be saved")
    } else if b.mixed_endings {
        joined3("opened ", place, " with mixed line endings")
    } else {
        joined("opened ", place)
    }
}

/// The first of `panes` that has `place` open.
pub open spec fn pane_with(panes: Seq<PaneStore>, place: Seq<char>) -> Option<int>
    decreases panes.len(),
{
    if panes.len() == 0 {
        None
    } else {
        match pane_with(panes.drop_last(), place) {
            Some(p) => Some(p),
            None => if panes.last().docs.position_at(place) is Some {
                Some(panes.len() - 1)
            } else {
                None
            },
        }
    }
}

/// See [`pane_with`]. Returns the pane and the tab.
fn find_elsewhere(panes: &Vec<PaneStore>, place: &str) -> (found: Option<(usize, usize)>)
    ensures
        match (found, pane_with(panes@, place@)) {
            (Some((p, tab)), Some(q)) => p == q && p < panes@.len()
                && panes@[q].docs.position_at(place@) == Some(tab as int) && tab
                < panes@[q].docs.list@.len(),
            (None, None) => true,
            _ => false,
        },
{
    let mut found: Option<(usize, usize)> = None;
    let mut p: usize = 0;
    assert(panes@.take(0) =~= Seq::empty());
    while p < panes.len()
        invariant
            p <= panes@.len(),
            match (found, pane_with(panes@.take(p as int), place@)) {
                (Some((a, tab)), Some(b)) => a == b && a < p
                    && panes@[b].docs.position_at(place@) == Some(tab as int) && tab
                    < panes@[b].docs.list@.len(),
                (None, None) => true,
                _ => false,
            },
        decreases panes@.len() - p,
    {
        assert(panes@.take(p + 1).drop_last() =~= panes@.take(p as int));
        if found.is_none() {
            if let Some(tab) = panes[p].docs.index_of(place) {
                found = Some((p, tab));
            }
        }
        p += 1;
    }
    assert(panes@.take(panes@.len() as int) =~= panes@);
    found
}

impl EditorView {
    /// The project is the folder of the first file opened, when there is none:
    /// documents can arrive after launch, and the sidebar should be useful
    /// either way. `folder` is that folder, when it is one.
    pub fn adopt_folder(&mut self, folder: Option<String>)
        ensures
            old(self).state.wf() ==> final(self).state.wf(),
            final(self).adopts(*old(self), folder),
    {
        if self.state.side.tree.root.is_some() {
            assert(self.effects@ =~= old(self).effects@ + Seq::<Effect>::empty());
            return;
        }
        let ghost wanted = folder;
        match folder {
            None => {
                assert(self.effects@ =~= old(self).effects@ + Seq::<Effect>::empty());
            },
            Some(folder) => {
                self.state.side.tree.root = Some(folder.clone());
                self.state.project.indexing = true;
                self.effects.push(Effect::NewGitPanel(folder.clone()));
                self.effects.push(Effect::StartIndex(folder));
                self.effects.push(Effect::WatchProject);
                self.effects.push(Effect::ResumeDisplayLink);
                assert(self.effects@ =~= old(self).effects@ + adopting_work(wanted->0));
            },
        }
    }

    /// This is `before` with `folder` adopted, if there was no project.
    pub open spec fn adopts(&self, before: EditorView, folder: Option<String>) -> bool {
        match (before.state.side.tree.root, folder) {
            (None, Some(folder)) => self.becomes(
                before,
                before.state.adopting(folder),
                adopting_work(folder),
            ),
            _ => self.becomes(before, before.state, Seq::empty()),
        }
    }

    /// This is `before` with tab `tab` of the focused pane in front.
    pub open spec fn brings_tab(&self, before: EditorView, tab: int) -> bool {
        self.becomes(
            before,
            before.state.switched(tab as usize).presented(),
            seq![Effect::SyncTitle, Effect::Run(Task::Reparse)],
        )
    }

    /// Brings a document that is open in another pane to the front there.
    fn bring_elsewhere(&mut self, slot: usize, tab: usize, now: u64)
        requires
            old(self).state.wf(),
            slot < old(self).state.panes@.len(),
            tab < old(self).state.panes@[slot as int].docs.list@.len(),
        ensures
            final(self).state.wf(),
            exists|focused: EditorView|
                {
                    &&& #[trigger] focused.focuses(
                        *old(self),
                        panes::pane_number(slot as int, old(self).state.focused_pane),
                        now,
                    )
                    &&& final(self).brings_tab(focused, tab as int)
                },
    {
        let pane = if slot >= self.state.focused_pane {
            slot + 1
        } else {
            slot
        };
        self.focus_pane(pane, now);
        let ghost focused = *self;
        assert(focused.focuses(
            *old(self),
            panes::pane_number(slot as int, old(self).state.focused_pane),
            now,
        ));
        proof {
            let all = panes::every_pane(old(self).state);
            assert(all[pane as int] == old(self).state.panes@[slot as int]);
        }
        let shown = self.state.pane.docs.switch(tab);
        present(&mut self.state);
        self.effects.push(Effect::SyncTitle);
        self.effects.push(Effect::Run(Task::Reparse));
        assert(self.effects@ =~= focused.effects@ + seq![
            Effect::SyncTitle,
            Effect::Run(Task::Reparse),
        ]);
    }

    /// This is `before` with what was found opened in the focused pane, or
    /// brought to its front when it is open there as `key`.
    pub open spec fn opens_here(
        &self,
        before: EditorView,
        found: Opened,
        place: Seq<char>,
        key: Seq<char>,
        limit: Seq<char>,
        now: u64,
    ) -> bool {
        let docs = self.state.pane.docs;
        let old_docs = before.state.pane.docs;
        &&& match old_docs.position_at(key) {
            Some(tab) => docs == (Documents { active: tab as usize, ..old_docs }),
            None => {
                let buffer = found->File_0;
                if old_docs.at_home() {
                    docs.list@ == seq![buffer] && docs.active == 0
                } else {
                    docs.list@ == old_docs.list@.push(buffer) && docs.active
                        == old_docs.list@.len()
                }
            },
        }
        &&& self.state.says(opened_note(docs.front(), place, limit), now)
        &&& self.becomes(
            before,
            before.state.with_docs(docs).presented().saying(self.state.status.message->0),
            seq![Effect::Run(Task::LspSyncOpen)],
        )
    }

    /// Tells of the document that was opened in the focused pane.
    fn tell_opened(&mut self, place: &str, limit: &str, now: u64)
        requires
            old(self).state.wf(),
        ensures
            final(self).state.wf(),
            final(self).state.says(
                opened_note(old(self).state.pane.docs.front(), place@, limit@),
                now,
            ),
            final(self).becomes(
                *old(self),
                old(self).state.presented().saying(final(self).state.status.message->0),
                seq![Effect::Run(Task::LspSyncOpen)],
            ),
    {
        present(&mut self.state);
        let note = opened_text(self.state.pane.docs.active(), place, limit);
        self.say(note, now);
        self.ask(Effect::Run(Task::LspSyncOpen));
    }

    /// Opens what is at `place`: `found` there, known to the file system as
    /// `key`, in the folder `folder`. It has a tab in front then, or the status
    /// line says why not; either way the request has been answered.
    ///
    /// Every route to a file comes through here, so all report failures the
    /// same way and none can replace a document somebody is editing. A
    /// document lives in one pane: open elsewhere, it comes to the front there
    /// rather than opening a second copy that could diverge.
    pub fn load_path(
        &mut self,
        place: &str,
        key: &str,
        folder: Option<String>,
        found: Opened,
        limit: &str,
        now: u64,
    ) -> (opened: bool)
        requires
            old(self).state.wf(),
            found matches Opened::File(buffer) ==> buffer.wf(),
        ensures
            opened,
            final(self).state.wf(),
            final(self).opens_path(*old(self), folder, place@, key@, found, limit@, now),
    {
        if let Opened::Folder = found {
            self.effects.push(Effect::LoadFolder(place.to_owned()));
            assert(self.effects@.drop_last() =~= old(self).effects@);
            return true;
        }
        self.adopt_folder(folder);
        let ghost adopted = *self;
        if let Some((slot, tab)) = find_elsewhere(&self.state.panes, key) {
            self.bring_elsewhere(slot, tab, now);
            return true;
        }
        if let Some(tab) = self.state.pane.docs.index_of(key) {
            let shown = self.state.pane.docs.switch(tab);
            self.tell_opened(place, limit, now);
            return true;
        }
        match found {
            Opened::Folder => {},
            Opened::File(buffer) => {
                self.state.pane.docs.push(buffer);
                self.tell_opened(place, limit, now);
            },
            Opened::TooLarge(error) => {
                self.say(joined("not opened: ", error.as_str()), now);
                if !self.ivars.testing {
                    self.ask(Effect::TooLarge(error));
                } else {
                    assert(self.effects@ =~= adopted.effects@ + Seq::<Effect>::empty());
                }
            },
            Opened::Failed(error) => {
                self.say(joined("open failed: ", error.as_str()), now);
                self.ask(Effect::Run(Task::LspSyncOpen));
            },
        }
        true
    }

    /// This is `before` with `folder` adopted and what was found at `place`
    /// opened. A folder becomes the project instead.
    pub open spec fn opens_path(
        &self,
        before: EditorView,
        folder: Option<String>,
        place: Seq<char>,
        key: Seq<char>,
        found: Opened,
        limit: Seq<char>,
        now: u64,
    ) -> bool {
        if found is Folder {
            &&& self.state == before.state
            &&& self.ivars == before.ivars
            &&& self.effects@.len() == before.effects@.len() + 1
            &&& self.effects@.drop_last() == before.effects@
            &&& self.effects@.last() matches Effect::LoadFolder(path) && path@ == place
        } else {
            exists|adopted: EditorView|
                {
                    &&& #[trigger] adopted.adopts(before, folder)
                    &&& self.loads(adopted, place, key, found, limit, now)
                }
        }
    }

    /// This is `before` after opening what was found at `place`.
    pub open spec fn loads(
        &self,
        before: EditorView,
        place: Seq<char>,
        key: Seq<char>,
        found: Opened,
        limit: Seq<char>,
        now: u64,
    ) -> bool {
        match pane_with(before.state.panes@, key) {
            Some(slot) => exists|focused: EditorView|
                {
                    &&& #[trigger] focused.focuses(
                        before,
                        panes::pane_number(slot, before.state.focused_pane),
                        now,
                    )
                    &&& self.brings_tab(
                        focused,
                        before.state.panes@[slot].docs.position_at(key)->0,
                    )
                },
            None => if before.state.pane.docs.position_at(key) is Some || found is File {
                self.opens_here(before, found, place, key, limit, now)
            } else {
                match found {
                    Opened::TooLarge(error) => {
                        &&& self.state.says("not opened: "@ + error@, now)
                        &&& self.becomes(
                            before,
                            before.state.saying(self.state.status.message->0),
                            if before.ivars.testing {
                                Seq::empty()
                            } else {
                                seq![Effect::TooLarge(error)]
                            },
                        )
                    },
                    Opened::Failed(error) => {
                        &&& self.state.says("open failed: "@ + error@, now)
                        &&& self.becomes(
                            before,
                            before.state.saying(self.state.status.message->0),
                            seq![Effect::Run(Task::LspSyncOpen)],
                        )
                    },
                    _ => true,
                }
            },
        }
    }
}

/// What adopting a folder asks for.
pub open spec fn adopting_work(folder: String) -> Seq<Effect> {
    seq![
        Effect::NewGitPanel(folder),
        Effect::StartIndex(folder),
        Effect::WatchProject,
        Effect::ResumeDisplayLink,
    ]
}

/// A document lives in one pane: opening what is open already leaves the
/// documents of every pane as they are, and only brings one to the front.
pub proof fn an_open_file_is_not_opened_twice(
    before: EditorView,
    adopted: EditorView,
    after: EditorView,
    folder: Option<String>,
    place: Seq<char>,
    key: Seq<char>,
    found: Opened,
    limit: Seq<char>,
    now: u64,
    p: int,
)
    requires
        before.state.wf(),
        adopted.adopts(before, folder),
        after.loads(adopted, place, key, found, limit, now),
        !(found is Folder),
        pane_with(before.state.panes@, key) is Some || before.state.pane.docs.position_at(
            key,
        ) is Some,
        0 <= p < panes::every_pane(before.state).len(),
    ensures
        panes::every_pane(after.state).len() == panes::every_pane(before.state).len(),
        panes::every_pane(after.state)[p].docs.list == panes::every_pane(
            before.state,
        )[p].docs.list,
{
    let all = panes::every_pane(before.state);
    assert(panes::every_pane(adopted.state) =~= all);
    match pane_with(adopted.state.panes@, key) {
        Some(slot) => {
            pane_with_in_range(adopted.state.panes@, key);
            let index = panes::pane_number(slot, adopted.state.focused_pane);
            let focused = choose|focused: EditorView|
                {
                    &&& #[trigger] focused.focuses(adopted, index, now)
                    &&& after.brings_tab(
                        focused,
                        adopted.state.panes@[slot].docs.position_at(key)->0,
                    )
                };
            assert(focused.focuses(adopted, index, now));
            assert(panes::every_pane(focused.state) =~= all);
            assert(after.state.panes == focused.state.panes);
            assert(after.state.focused_pane == focused.state.focused_pane);
        },
        None => {},
    }
}

/// The pane that has it is one of the panes.
proof fn pane_with_in_range(panes: Seq<PaneStore>, place: Seq<char>)
    ensures
        pane_with(panes, place) matches Some(p) ==> 0 <= p < panes.len(),
    decreases panes.len(),
{
    if panes.len() > 0 {
        pane_with_in_range(panes.drop_last(), place);
    }
}

/// A tab with unsaved changes is not closed without asking: it is asked about,
/// and until that is answered every document is still there.
pub proof fn a_dirty_tab_is_asked_about(
    before: EditorView,
    after: EditorView,
    index: usize,
    blank: Buffer,
    asking: bool,
    now: u64,
)
    requires
        index < before.state.pane.docs.list@.len(),
        before.state.pane.docs.list@[index as int].dirty,
        after.closes_tab(before, index as int, blank, asking, now),
    ensures
        asking,
        after.state.pane.docs.list == before.state.pane.docs.list,
        after.state.pane.docs.active == index,
        after.state.panes == before.state.panes,
{
    let answered = choose|answered: EditorView|
        {
            &&& #[trigger] answered.answers_tab(before, index as int)
            &&& after.asks_about(answered, index as int)
        };
    assert(answered.state.pane == before.state.pane);
}

} // verus!
