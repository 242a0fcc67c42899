//! What changes behind the editor: files that other programs wrote, and going
//! back to what is on disk.

use crate::buffer::Buffer;
use crate::documents::Documents;
use crate::panes::PaneStore;
use crate::path::{self, file_name};
use crate::project_search::{self, stamp_all};
use crate::state::{EditorView, Effect, Gutter, Hints, Pacing, Servers, State, Task};
use crate::table::{has_id, Table};
use crate::tabs::{self, default_preview};
use crate::text::{self, decimal, joined};
use vstd::prelude::*;
use vstd::string::*;

verus! {

/// How a file stands against what was read from it.
pub enum DiskState {
    Unchanged,
    /// Written by someone else: its bytes now, unless it cannot be read,
    /// mid-write most likely.
    Changed(Option<Vec<u8>>),
    Missing,
}

/// How the file of an open document stands.
pub struct DiskReport {
    pub id: u64,
    pub found: DiskState,
}

/// What a look at the disk means for a document.
#[derive(Clone, Copy, PartialEq, Eq, Structural, Debug)]
pub enum Notice {
    Nothing,
    /// A clean tab follows the disk.
    Reloaded,
    /// A tab with unsaved changes is left alone and told, since choosing
    /// between two versions is the user's call, which Save then asks.
    Conflict,
    /// A deleted file marks its tab unsaved: its text is now the only copy.
    Gone,
}

/// The name of the document's file.
pub open spec fn name_of(b: Buffer) -> Option<Seq<char>> {
    match b.path {
        Some(place) => path::file_name_of(place@),
        None => None,
    }
}

/// See [`Notice`].
pub open spec fn notice(b: Buffer, found: DiskState) -> Notice {
    if name_of(b) is None {
        Notice::Nothing
    } else {
        match found {
            DiskState::Unchanged => Notice::Nothing,
            DiskState::Changed(bytes) => if b.dirty {
                if b.conflict_noticed {
                    Notice::Nothing
                } else {
                    Notice::Conflict
                }
            } else if bytes is Some {
                Notice::Reloaded
            } else {
                Notice::Nothing
            },
            DiskState::Missing => if b.dirty && b.conflict_noticed {
                Notice::Nothing
            } else {
                Notice::Gone
            },
        }
    }
}

/// What is known of document `id`.
pub open spec fn report_of(reports: Seq<DiskReport>, id: u64) -> DiskState
    decreases reports.len(),
{
    if reports.len() == 0 {
        DiskState::Unchanged
    } else if reports[0].id == id {
        reports[0].found
    } else {
        report_of(reports.drop_first(), id)
    }
}

/// Whether `after` is `before` with its notice taken.
pub open spec fn settles(after: Buffer, before: Buffer, found: DiskState) -> bool {
    match notice(before, found) {
        Notice::Nothing => after == before,
        Notice::Conflict => after == (Buffer { conflict_noticed: true, ..before }),
        Notice::Reloaded => after.reloads(
            Buffer { conflict_noticed: false, ..before },
            found->Changed_0->0@,
        ),
        Notice::Gone => after == (Buffer { conflict_noticed: true, dirty: true, ..before }),
    }
}

/// Whether every document of `after` is that of `before` with its notice taken.
pub open spec fn all_settle(
    after: Seq<Buffer>,
    before: Seq<Buffer>,
    reports: Seq<DiskReport>,
) -> bool {
    &&& after.len() == before.len()
    &&& forall|i: int|
        0 <= i < before.len() ==> settles(
            #[trigger] after[i],
            before[i],
            report_of(reports, before[i].id),
        )
}

/// The names of the files in `list` that get the notice `kind`.
pub open spec fn noticed(
    list: Seq<Buffer>,
    reports: Seq<DiskReport>,
    kind: Notice,
) -> Seq<Seq<char>>
    decreases list.len(),
{
    if list.len() == 0 {
        Seq::empty()
    } else {
        let head = noticed(list.drop_last(), reports, kind);
        if notice(list.last(), report_of(reports, list.last().id)) == kind {
            head.push(name_of(list.last())->0)
        } else {
            head
        }
    }
}

/// The ids of the documents in `list` that were reloaded.
pub open spec fn reloaded_ids(list: Seq<Buffer>, reports: Seq<DiskReport>) -> Seq<u64>
    decreases list.len(),
{
    if list.len() == 0 {
        Seq::empty()
    } else {
        let head = reloaded_ids(list.drop_last(), reports);
        if notice(list.last(), report_of(reports, list.last().id)) == Notice::Reloaded {
            head.push(list.last().id)
        } else {
            head
        }
    }
}

/// The documents of all `panes`, in order.
pub open spec fn pane_documents(panes: Seq<PaneStore>) -> Seq<Buffer>
    decreases panes.len(),
{
    if panes.len() == 0 {
        Seq::empty()
    } else {
        pane_documents(panes.drop_last()) + panes.last().docs.list@
    }
}

/// Every open document: the focused pane's first, then the others'.
pub open spec fn all_documents(state: State) -> Seq<Buffer> {
    state.pane.docs.list@ + pane_documents(state.panes@)
}

/// What a look at the disk came to.
pub struct Noticed {
    pub reloaded: Vec<String>,
    pub conflicts: Vec<String>,
    pub gone: Vec<String>,
    /// The documents that were reloaded.
    pub touched: Vec<u64>,
}

impl Noticed {
    /// This is what looking at `list` came to.
    pub open spec fn sums_up(&self, list: Seq<Buffer>, reports: Seq<DiskReport>) -> bool {
        &&& path::texts(self.reloaded@) == noticed(list, reports, Notice::Reloaded)
        &&& path::texts(self.conflicts@) == noticed(list, reports, Notice::Conflict)
        &&& path::texts(self.gone@) == noticed(list, reports, Notice::Gone)
        &&& self.touched@ == reloaded_ids(list, reports)
    }
}

/// What is said about them.
pub open spec fn disk_note(
    reloaded: Seq<Seq<char>>,
    conflicts: Seq<Seq<char>>,
    gone: Seq<Seq<char>>,
) -> Option<Seq<char>> {
    if conflicts.len() == 0 && gone.len() == 0 {
        if reloaded.len() == 0 {
            None
        } else if reloaded.len() == 1 {
            Some(reloaded[0] + " changed on disk, reloaded"@)
        } else {
            Some(
                text::decimal_digits(reloaded.len()) + " files changed on disk, reloaded"@,
            )
        }
    } else if conflicts.len() == 1 && gone.len() == 0 {
        Some(
            conflicts[0] + " changed on disk; you have unsaved changes, Save will ask"@,
        )
    } else if conflicts.len() == 0 && gone.len() == 1 {
        Some(gone[0] + " was deleted on disk"@)
    } else {
        Some("files changed on disk; see each tab"@)
    }
}

/// See [`disk_note`].
fn say_noticed(found: &Noticed) -> (note: Option<String>)
    ensures
        match (
            note,
            disk_note(
                path::texts(found.reloaded@),
                path::texts(found.conflicts@),
                path::texts(found.gone@),
            ),
        ) {
            (Some(note), Some(text)) => note@ == text,
            (None, None) => true,
            _ => false,
        },
{
    let reloaded = found.reloaded.len();
    let conflicts = found.conflicts.len();
    let gone = found.gone.len();
    if conflicts == 0 && gone == 0 {
        if reloaded == 0 {
            None
        } else if reloaded == 1 {
            Some(joined(found.reloaded[0].as_str(), " changed on disk, reloaded"))
        } else {
            Some(joined(decimal(reloaded).as_str(), " files changed on disk, reloaded"))
        }
    } else if conflicts == 1 && gone == 0 {
        Some(
            joined(
                found.conflicts[0].as_str(),
                " changed on disk; you have unsaved changes, Save will ask",
            ),
        )
    } else if conflicts == 0 && gone == 1 {
        Some(joined(found.gone[0].as_str(), " was deleted on disk"))
    } else {
        Some("files changed on disk; see each tab".to_owned())
    }
}

/// Where the report on document `id` stands.
fn find_report(reports: &Vec<DiskReport>, id: u64) -> (at: Option<usize>)
    ensures
        at matches Some(i) ==> i < reports@.len() && report_of(reports@, id)
            == reports@[i as int].found,
        at is None ==> report_of(reports@, id) is Unchanged,
{
    let mut i: usize = 0;
    assert(reports@.skip(0) =~= reports@);
    while i < reports.len()
        invariant
            i <= reports@.len(),
            report_of(reports@, id) == report_of(reports@.skip(i as int), id),
        decreases reports@.len() - i,
    {
        assert(reports@.skip(i as int).drop_first() =~= reports@.skip(i + 1));
        if reports[i].id == id {
            return Some(i);
        }
        i += 1;
    }
    None
}

/// Takes the notice of one document.
fn settle(b: &mut Buffer, found: &DiskState) -> (kind: Notice)
    requires
        old(b).wf(),
    ensures
        final(b).wf(),
        kind == notice(*old(b), *found),
        settles(*final(b), *old(b), *found),
        final(b).id == old(b).id,
{
    let named = match &b.path {
        Some(place) => file_name(place.as_str()).is_some(),
        None => false,
    };
    if !named {
        return Notice::Nothing;
    }
    match found {
        DiskState::Unchanged => Notice::Nothing,
        DiskState::Changed(bytes) => {
            if b.dirty {
                if b.conflict_noticed {
                    Notice::Nothing
                } else {
                    b.conflict_noticed = true;
                    Notice::Conflict
                }
            } else {
                match bytes {
                    Some(bytes) => {
                        let text = bytes.clone();
                        assert(text@ =~= bytes@);
                        b.conflict_noticed = false;
                        b.reload(text);
                        Notice::Reloaded
                    },
                    None => Notice::Nothing,
                }
            }
        },
        DiskState::Missing => {
            if b.dirty && b.conflict_noticed {
                Notice::Nothing
            } else {
                b.dirty = true;
                b.conflict_noticed = true;
                Notice::Gone
            }
        },
    }
}

/// Adds a name to `list`.
proof fn texts_push(list: Seq<String>, name: String)
    ensures
        path::texts(list.push(name)) == path::texts(list).push(name@),
{
    assert(path::texts(list.push(name)) =~= path::texts(list).push(name@));
}

/// What a list of documents and one more come to.
proof fn sums_up_more(list: Seq<Buffer>, last: Buffer)
    ensures
        list.push(last).drop_last() == list,
        list.push(last).last() == last,
{
    assert(list.push(last).drop_last() =~= list);
}

/// Looks at every document of `docs`, adding to what looking at `before` came
/// to.
fn check_documents(
    docs: &mut Documents,
    reports: &Vec<DiskReport>,
    found: &mut Noticed,
    Ghost(before): Ghost<Seq<Buffer>>,
)
    requires
        old(docs).wf(),
        old(found).sums_up(before, reports@),
    ensures
        final(docs).wf(),
        final(docs).active == old(docs).active,
        all_settle(final(docs).list@, old(docs).list@, reports@),
        final(found).sums_up(before + old(docs).list@, reports@),
{
    let ghost list = docs.list@;
    let mut i: usize = 0;
    assert(before + list.take(0) =~= before);
    while i < docs.list.len()
        invariant
            i <= list.len(),
            list == old(docs).list@,
            docs.wf(),
            docs.active == old(docs).active,
            docs.list@.len() == list.len(),
            forall|j: int| i <= j < list.len() ==> docs.list@[j] == list[j],
            forall|j: int|
                0 <= j < i ==> settles(
                    #[trigger] docs.list@[j],
                    list[j],
                    report_of(reports@, list[j].id),
                ),
            found.sums_up(before + list.take(i as int), reports@),
        decreases list.len() - i,
    {
        let ghost so_far = before + list.take(i as int);
        let ghost b = list[i as int];
        proof {
            sums_up_more(so_far, b);
            assert(before + list.take(i + 1) =~= so_far.push(b));
        }
        let id = docs.list[i].id;
        let name = match &docs.list[i].path {
            Some(place) => file_name(place.as_str()),
            None => None,
        };
        let kind = match find_report(reports, id) {
            Some(at) => settle(&mut docs.list[i], &reports[at].found),
            None => Notice::Nothing,
        };
        if let Some(name) = name {
            match kind {
                Notice::Nothing => {},
                Notice::Reloaded => {
                    proof {
                        texts_push(found.reloaded@, name);
                    }
                    found.reloaded.push(name);
                    found.touched.push(id);
                },
                Notice::Conflict => {
                    proof {
                        texts_push(found.conflicts@, name);
                    }
                    found.conflicts.push(name);
                },
                Notice::Gone => {
                    proof {
                        texts_push(found.gone@, name);
                    }
                    found.gone.push(name);
                },
            }
        }
        i += 1;
    }
    assert(before + list.take(list.len() as int) =~= before + list);
}

/// Whether `after` is `before` with the notices of its documents taken.
pub open spec fn pane_settles(
    after: PaneStore,
    before: PaneStore,
    reports: Seq<DiskReport>,
) -> bool {
    &&& all_settle(after.docs.list@, before.docs.list@, reports)
    &&& after == (PaneStore {
        docs: Documents { list: after.docs.list, ..before.docs },
        ..before
    })
}

/// Whether `after` is `before` with the notices of every document taken.
pub open spec fn panes_settle(after: State, before: State, reports: Seq<DiskReport>) -> bool {
    &&& pane_settles(after.pane, before.pane, reports)
    &&& after.panes@.len() == before.panes@.len()
    &&& forall|p: int|
        0 <= p < before.panes@.len() ==> pane_settles(
            #[trigger] after.panes@[p],
            before.panes@[p],
            reports,
        )
    &&& after == (State { pane: after.pane, panes: after.panes, ..before })
}

/// Looks at every open document.
fn look_at_disk(state: &mut State, reports: &Vec<DiskReport>) -> (found: Noticed)
    requires
        old(state).wf(),
    ensures
        final(state).wf(),
        panes_settle(*final(state), *old(state), reports@),
        found.sums_up(all_documents(*old(state)), reports@),
{
    let mut found = Noticed {
        reloaded: Vec::new(),
        conflicts: Vec::new(),
        gone: Vec::new(),
        touched: Vec::new(),
    };
    let ghost none = Seq::<Buffer>::empty();
    proof {
        assert(path::texts(found.reloaded@) =~= Seq::<Seq<char>>::empty());
        assert(found.touched@ =~= Seq::<u64>::empty());
        assert(found.sums_up(none, reports@));
    }
    check_documents(&mut state.pane.docs, reports, &mut found, Ghost(none));
    let ghost front = old(state).pane.docs.list@;
    let ghost panes = old(state).panes@;
    assert(none + front =~= front + pane_documents(panes.take(0))) by {
        assert(panes.take(0) =~= Seq::empty());
    }
    let mut p: usize = 0;
    while p < state.panes.len()
        invariant
            p <= panes.len(),
            panes == old(state).panes@,
            front == old(state).pane.docs.list@,
            old(state).wf(),
            state.wf(),
            state.panes@.len() == panes.len(),
            *state == (State { pane: state.pane, panes: state.panes, ..*old(state) }),
            pane_settles(state.pane, old(state).pane, reports@),
            forall|q: int| p <= q < panes.len() ==> state.panes@[q] == panes[q],
            forall|q: int|
                0 <= q < p ==> pane_settles(#[trigger] state.panes@[q], panes[q], reports@),
            found.sums_up(front + pane_documents(panes.take(p as int)), reports@),
        decreases panes.len() - p,
    {
        let ghost so_far = front + pane_documents(panes.take(p as int));
        check_documents(&mut state.panes[p].docs, reports, &mut found, Ghost(so_far));
        proof {
            assert(panes.take(p + 1).drop_last() =~= panes.take(p as int));
            assert(so_far + panes[p as int].docs.list@ =~= front + pane_documents(
                panes.take(p + 1),
            ));
        }
        p += 1;
    }
    assert(panes.take(panes.len() as int) =~= panes);
    found
}

impl State {
    /// The state with other stamps for what has to hear of a change: the
    /// servers, and the marks in the gutter.
    pub open spec fn with_stamps(self, servers: Table<u64>, gutter: Table<u64>) -> State {
        State {
            servers: Servers { dirty: servers, ..self.servers },
            gutter: Gutter { dirty: gutter, ..self.gutter },
            ..self
        }
    }

    /// The state without suggestions.
    pub open spec fn without_popup(self) -> State {
        State { hints: Hints { completion: None, ..self.hints }, ..self }
    }

    /// The state with the document in front shown as on coming there.
    pub open spec fn shown_afresh(self) -> State {
        State {
            pane: PaneStore { preview: tabs::preview_of(self.pane.docs.front()), ..self.pane },
            ..self
        }
    }
}

impl EditorView {
    /// This is `before` with everything keyed on the active document's text
    /// starting over.
    pub open spec fn starts_over(&self, before: EditorView, announce: bool, now: u64) -> bool {
        if announce {
            exists|restarted: EditorView|
                {
                    &&& #[trigger] restarted.restarts(before, now)
                    &&& self.reads_afresh(restarted)
                }
        } else {
            self.restarts(before, now)
        }
    }

    /// This is `before` with the active document stamped as changed, parsed
    /// again, and without suggestions.
    pub open spec fn restarts(&self, before: EditorView, now: u64) -> bool {
        let front = before.state.pane.docs.front();
        let servers = self.state.servers.dirty;
        let gutter = self.state.gutter.dirty;
        &&& if front.path is Some {
            &&& servers@ == before.state.servers.dirty@.insert(front.id, now)
            &&& gutter@ == before.state.gutter.dirty@.insert(front.id, now)
        } else {
            &&& servers == before.state.servers.dirty
            &&& gutter == before.state.gutter.dirty
        }
        &&& self.marks(
            before,
            before.state.with_stamps(servers, gutter).without_popup(),
            seq![Effect::Run(Task::Reparse)],
        )
    }

    /// This is `restarted` with the document shown as on coming there, and no
    /// live search.
    pub open spec fn reads_afresh(&self, restarted: EditorView) -> bool {
        self.becomes(
            restarted,
            restarted.state.shown_afresh().with_find(None).not_searching(),
            restarted.state.cancelling(),
        )
    }

    /// The active document's text was replaced from disk: everything keyed on
    /// it starts over. `announce` is for the explicit reloads, which also drop
    /// the completion popup and any live search.
    pub fn after_reload(&mut self, announce: bool, now: u64)
        requires
            old(self).state.wf(),
        ensures
            final(self).state.wf(),
            final(self).starts_over(*old(self), announce, now),
    {
        self.restart(now);
        let ghost restarted = *self;
        assert(restarted.restarts(*old(self), now));
        if announce {
            self.state.pane.preview = default_preview(self.state.pane.docs.active());
            self.drop_search();
            assert(self.reads_afresh(restarted));
        }
    }

    /// Stamps the active document as changed, and drops what was about its old
    /// text.
    fn restart(&mut self, now: u64)
        requires
            old(self).state.wf(),
        ensures
            final(self).state.wf(),
            final(self).restarts(*old(self), now),
    {
        self.effects.push(Effect::Run(Task::Reparse));
        assert(self.effects@ =~= old(self).effects@ + seq![Effect::Run(Task::Reparse)]);
        let id = self.state.pane.docs.active().id;
        if self.state.pane.docs.active().path.is_some() {
            self.state.servers.dirty.insert(id, now);
            self.state.gutter.dirty.insert(id, now);
        }
        self.state.hints.completion = None;
        self.request_redraw();
    }

    /// This is `before` with every document's notice taken, the reloaded ones
    /// stamped, and the note said.
    pub open spec fn takes_notice(
        &self,
        before: EditorView,
        reports: Seq<DiskReport>,
        now: u64,
    ) -> bool {
        let all = all_documents(before.state);
        let ids = reloaded_ids(all, reports);
        let note = disk_note(
            noticed(all, reports, Notice::Reloaded),
            noticed(all, reports, Notice::Conflict),
            noticed(all, reports, Notice::Gone),
        );
        let settled = State { pane: self.state.pane, panes: self.state.panes, ..before.state };
        let stamped = settled.with_stamps(self.state.servers.dirty, self.state.gutter.dirty);
        &&& panes_settle(settled, before.state, reports)
        &&& self.state.servers.dirty@ == project_search::stamped(
            before.state.servers.dirty@,
            ids,
            now,
        )
        &&& self.state.gutter.dirty@ == project_search::stamped(
            before.state.gutter.dirty@,
            ids,
            now,
        )
        &&& match note {
            None => self.becomes(before, stamped, Seq::empty()),
            Some(text) => {
                &&& self.state.says(text, now)
                &&& self.becomes(
                    before,
                    stamped.saying(self.state.status.message->0),
                    Seq::empty(),
                )
            },
        }
    }

    /// Takes the notice of every open document.
    fn take_notice(&mut self, reports: &Vec<DiskReport>, now: u64) -> (front: bool)
        requires
            old(self).state.wf(),
        ensures
            final(self).state.wf(),
            final(self).takes_notice(*old(self), reports@, now),
            front == reloaded_ids(all_documents(old(self).state), reports@).contains(
                old(self).state.pane.docs.front().id,
            ),
    {
        let id = self.state.pane.docs.active().id;
        let found = look_at_disk(&mut self.state, reports);
        stamp_all(&mut self.state.servers.dirty, &found.touched, now);
        stamp_all(&mut self.state.gutter.dirty, &found.touched, now);
        if let Some(note) = say_noticed(&found) {
            self.say(note, now);
        }
        assert(self.effects@ =~= old(self).effects@ + Seq::<Effect>::empty());
        has_id(&found.touched, id)
    }

    /// This is `followed` with a frame on the way.
    pub open spec fn ends_look(&self, followed: EditorView) -> bool {
        self.marks(
            followed,
            followed.state,
            seq![Effect::SyncTitle, Effect::ResumeDisplayLink],
        )
    }

    /// This is `before` after looking at every open file: notices taken, and
    /// what hangs on the active document started over if it was reloaded.
    pub open spec fn looks_at_disk(
        &self,
        before: EditorView,
        reports: Seq<DiskReport>,
        now: u64,
    ) -> bool {
        exists|noticed: EditorView, followed: EditorView|
            {
                &&& #[trigger] noticed.takes_notice(before, reports, now)
                &&& if reloaded_ids(all_documents(before.state), reports).contains(
                    before.state.pane.docs.front().id,
                ) {
                    followed.starts_over(noticed, false, now)
                } else {
                    followed == noticed
                }
                &&& #[trigger] self.ends_look(followed)
            }
    }

    /// Looks at every open file and takes in what changed behind the editor.
    ///
    /// A clean tab follows the disk: this is what makes an edit by another
    /// program or a checkout show up instead of sitting stale until a save
    /// fails.
    pub fn check_open_files(&mut self, reports: &Vec<DiskReport>, now: u64)
        requires
            old(self).state.wf(),
        ensures
            final(self).state.wf(),
            final(self).looks_at_disk(*old(self), reports@, now),
    {
        let front = self.take_notice(reports, now);
        let ghost noticed = *self;
        if front {
            self.after_reload(false, now);
        }
        let ghost followed = *self;
        self.effects.push(Effect::SyncTitle);
        self.effects.push(Effect::ResumeDisplayLink);
        assert(self.effects@ =~= followed.effects@ + seq![
            Effect::SyncTitle,
            Effect::ResumeDisplayLink,
        ]);
        self.request_redraw();
        assert(noticed.takes_notice(*old(self), reports@, now) && self.ends_look(followed));
    }

    /// This is `looked` with the caret solid from `now` and a frame under way.
    pub open spec fn comes_back(&self, looked: EditorView, now: u64) -> bool {
        self.shows(
            looked,
            State { frame: Pacing { caret_since: now, ..looked.state.frame }, ..looked.state },
            Seq::empty(),
            now,
        )
    }

    /// The window is back from another app: anything it wrote to an open file
    /// shows now, not at the next save, and the caret is solid.
    pub fn window_did_become_key(&mut self, reports: &Vec<DiskReport>, now: u64)
        requires
            old(self).state.wf(),
        ensures
            final(self).state.wf(),
            exists|looked: EditorView|
                {
                    &&& looked.looks_at_disk(*old(self), reports@, now)
                    &&& #[trigger] final(self).comes_back(looked, now)
                },
    {
        self.check_open_files(reports, now);
        let ghost looked = *self;
        self.state.frame.caret_since = now;
        self.show(now);
        assert(self.effects@ =~= looked.effects@ + (Seq::<Effect>::empty() + looked.pumping(
            now,
        )));
        assert(self.comes_back(looked, now));
    }
}

/// A look at the disk never costs anybody their work: a document with unsaved
/// changes keeps its text, and stays unsaved.
pub proof fn unsaved_text_survives_the_disk(after: Buffer, before: Buffer, found: DiskState)
    requires
        settles(after, before, found),
        before.dirty,
    ensures
        after.text == before.text,
        after.dirty,
{
}

/// The text of a file that was deleted is kept, and counts as unsaved.
pub proof fn the_text_of_a_deleted_file_is_kept(after: Buffer, before: Buffer)
    requires
        settles(after, before, DiskState::Missing),
        name_of(before) is Some,
    ensures
        after.text == before.text,
        after.dirty,
{
}

/// Everybody is told once: looking again at a file that still stands the same
/// notices nothing more.
pub proof fn a_conflict_is_told_once(
    after: Buffer,
    before: Buffer,
    first: DiskState,
    again: DiskState,
)
    requires
        settles(after, before, first),
        notice(before, first) is Conflict,
        again is Changed || again is Missing,
    ensures
        notice(after, again) is Nothing,
{
}

} // verus!
