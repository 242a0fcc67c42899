//! What was open, for the next launch, and what is asked on the way out.

use crate::buffer::Buffer;
use crate::documents;
use crate::frame::Rect;
use crate::panes::{self, PaneStore};
use crate::state::{EditorView, Effect, Quit, State, Task};
use crate::tabs::{self, Discard};
use vstd::prelude::*;

verus! {

/// A snapshot of what is open.
pub struct Session {
    pub folder: Option<String>,
    pub files: Vec<String>,
    /// An index into `files`.
    pub active: usize,
    pub sidebar: bool,
    /// In hundredths of a point.
    pub sidebar_width: i32,
    /// Where the window is.
    pub frame: Option<Rect>,
    pub recent: Vec<String>,
}

/// The paths of the documents that have one, in order.
pub open spec fn named_paths(list: Seq<Buffer>) -> Seq<String>
    decreases list.len(),
{
    if list.len() == 0 {
        Seq::empty()
    } else {
        match list.last().path {
            Some(path) => named_paths(list.drop_last()).push(path),
            None => named_paths(list.drop_last()),
        }
    }
}

/// The paths of every pane's documents, in pane order.
pub open spec fn pane_paths(panes: Seq<PaneStore>) -> Seq<String>
    decreases panes.len(),
{
    if panes.len() == 0 {
        Seq::empty()
    } else {
        pane_paths(panes.drop_last()) + named_paths(panes.last().docs.list@)
    }
}

/// Every open file: the focused pane's first, then the others'.
pub open spec fn open_files(state: State) -> Seq<String> {
    named_paths(state.pane.docs.list@) + pane_paths(state.panes@)
}

/// Appends the paths of `list[..n]` to `files` and returns how many there are.
fn add_paths(files: &mut Vec<String>, list: &Vec<Buffer>, n: usize) -> (count: usize)
    requires
        n <= list@.len(),
    ensures
        final(files)@ == old(files)@ + named_paths(list@.take(n as int)),
        count == named_paths(list@.take(n as int)).len(),
{
    let ghost before = files@;
    let mut i: usize = 0;
    let mut count: usize = 0;
    assert(list@.take(0) =~= Seq::empty());
    assert(files@ =~= before + Seq::<String>::empty());
    while i < n
        invariant
            i <= n <= list@.len(),
            count <= i,
            before == old(files)@,
            files@ == before + named_paths(list@.take(i as int)),
            count == named_paths(list@.take(i as int)).len(),
        decreases n - i,
    {
        assert(list@.take(i + 1).drop_last() =~= list@.take(i as int));
        let ghost so_far = named_paths(list@.take(i as int));
        if let Some(path) = &list[i].path {
            files.push(path.clone());
            count += 1;
            assert(files@ =~= before + so_far.push(*path));
        }
        i += 1;
    }
    count
}

impl EditorView {
    /// Snapshots what is open, for the next launch.
    ///
    /// Every pane's files, focused pane first; they come back in one pane.
    /// Splits are a way of looking, not something to restore.
    pub fn capture_session(&self) -> (session: Session)
        requires
            self.state.wf(),
        ensures
            session.folder == self.state.side.tree.root,
            session.files@ == open_files(self.state),
            session.active == named_paths(
                self.state.pane.docs.list@.take(self.state.pane.docs.active as int),
            ).len(),
            session.sidebar == self.state.side.open,
            session.sidebar_width == self.state.side.width,
            session.frame == self.state.look.window,
            session.recent@ == self.state.side.recent@,
    {
        let docs = &self.state.pane.docs;
        let mut skipped: Vec<String> = Vec::new();
        let active = add_paths(&mut skipped, &docs.list, docs.active);
        let mut files: Vec<String> = Vec::new();
        let named = add_paths(&mut files, &docs.list, docs.list.len());
        assert(docs.list@.take(docs.list@.len() as int) =~= docs.list@);
        assert(files@ =~= named_paths(docs.list@));
        let ghost focused = files@;
        let panes = &self.state.panes;
        let mut p: usize = 0;
        assert(panes@.take(0) =~= Seq::empty());
        assert(files@ =~= focused + Seq::<String>::empty());
        while p < panes.len()
            invariant
                p <= panes@.len(),
                files@ == focused + pane_paths(panes@.take(p as int)),
            decreases panes@.len() - p,
        {
            let list = &panes[p].docs.list;
            let ghost before = files@;
            let more = add_paths(&mut files, list, list.len());
            proof {
                assert(list@.take(list@.len() as int) =~= list@);
                assert(panes@.take(p + 1).drop_last() =~= panes@.take(p as int));
                assert(files@ =~= focused + (pane_paths(panes@.take(p as int)) + named_paths(
                    list@,
                )));
            }
            p += 1;
        }
        assert(panes@.take(panes@.len() as int) =~= panes@);
        let recent = self.state.side.recent.clone();
        assert(recent@ =~= self.state.side.recent@);
        Session {
            folder: self.state.side.tree.root.clone(),
            files,
            active,
            sidebar: self.state.side.open,
            sidebar_width: self.state.side.width,
            frame: self.state.look.window,
            recent,
        }
    }
}

/// A document's path stands among the paths at the number of named documents
/// before it.
proof fn named_path_at(list: Seq<Buffer>, i: int)
    requires
        0 <= i < list.len(),
        list[i].path is Some,
    ensures
        named_paths(list.take(i)).len() < named_paths(list).len(),
        named_paths(list)[named_paths(list.take(i)).len() as int] == list[i].path->0,
    decreases list.len(),
{
    if i == list.len() - 1 {
        assert(list.take(i) =~= list.drop_last());
    } else {
        named_path_at(list.drop_last(), i);
        assert(list.drop_last().take(i) =~= list.take(i));
    }
}

/// The session's active entry is the document in front, when that is a file.
pub proof fn the_active_entry_is_the_front(state: State)
    requires
        state.wf(),
        state.pane.docs.front().path is Some,
    ensures
        ({
            let active = named_paths(
                state.pane.docs.list@.take(state.pane.docs.active as int),
            ).len();
            &&& active < open_files(state).len()
            &&& open_files(state)[active as int] == state.pane.docs.front().path->0
        }),
{
    named_path_at(state.pane.docs.list@, state.pane.docs.active as int);
}

/// How far closing the window has come.
#[derive(Clone, Copy, PartialEq, Eq, Structural, Debug)]
pub enum Leaving {
    /// Nothing is left to lose.
    Go,
    /// Somebody said no.
    Stay,
    /// The document in this tab of the focused pane is being asked about.
    Asking(usize),
}

/// The first of `panes` with unsaved changes.
pub open spec fn dirty_pane(panes: Seq<PaneStore>) -> Option<int>
    decreases panes.len(),
{
    if panes.len() == 0 {
        None
    } else {
        match dirty_pane(panes.drop_last()) {
            Some(p) => Some(p),
            None => if panes.last().docs.first_dirty() is Some {
                Some(panes.len() - 1)
            } else {
                None
            },
        }
    }
}

/// Whether some open document, in any pane, has unsaved changes.
pub open spec fn anything_unsaved(state: State) -> bool {
    ||| exists|i: int| 0 <= i < state.pane.docs.list@.len() && (#[trigger] state.pane.docs.list@[i]).dirty
    ||| exists|p: int, i: int|
        0 <= p < state.panes@.len() && 0 <= i < state.panes@[p].docs.list@.len()
            && #[trigger] state.panes@[p].docs.list@[i].dirty
}

/// See [`dirty_pane`].
fn find_dirty_pane(panes: &Vec<PaneStore>) -> (found: Option<usize>)
    ensures
        match (found, dirty_pane(panes@)) {
            (Some(p), Some(q)) => p == q && p < panes@.len() && panes@[q].docs.first_dirty()
                is Some,
            (None, None) => forall|p: int, i: int|
                0 <= p < panes@.len() && 0 <= i < panes@[p].docs.list@.len()
                    ==> !(#[trigger] panes@[p].docs.list@[i]).dirty,
            _ => false,
        },
{
    let mut found: Option<usize> = None;
    let mut p: usize = 0;
    assert(panes@.take(0) =~= Seq::empty());
    while p < panes.len()
        invariant
            p <= panes@.len(),
            match (found, dirty_pane(panes@.take(p as int))) {
                (Some(a), Some(b)) => a == b && a < p && panes@[b].docs.first_dirty() is Some,
                (None, None) => forall|q: int, i: int|
                    0 <= q < p && 0 <= i < panes@[q].docs.list@.len() ==> !(
                    #[trigger] panes@[q].docs.list@[i]).dirty,
                _ => false,
            },
        decreases panes@.len() - p,
    {
        assert(panes@.take(p + 1).drop_last() =~= panes@.take(p as int));
        if found.is_none() && panes[p].docs.dirty_index().is_some() {
            found = Some(p);
        }
        p += 1;
    }
    assert(panes@.take(panes@.len() as int) =~= panes@);
    found
}

impl State {
    /// The state with what was open remembered, or forgotten.
    pub open spec fn leaving_with(self, session: Option<Session>) -> State {
        State { quit: Quit { session, ..self.quit }, ..self }
    }

    /// The state with every question on the way out answered.
    pub open spec fn may_leave(self) -> State {
        State { quit: Quit { confirmed: true, ..self.quit }, ..self }
    }
}

/// Whether `session` is what capturing `state` gives.
pub open spec fn captures(session: Session, state: State) -> bool {
    &&& session.folder == state.side.tree.root
    &&& session.files@ == open_files(state)
    &&& session.active == named_paths(
        state.pane.docs.list@.take(state.pane.docs.active as int),
    ).len()
    &&& session.sidebar == state.side.open
    &&& session.sidebar_width == state.side.width
    &&& session.frame == state.look.window
    &&& session.recent@ == state.side.recent@
}

impl EditorView {
    /// This is `before` asking about tab `at` on the way out: it is on screen
    /// before the question is.
    pub open spec fn asks_on_the_way_out(&self, before: EditorView, at: int, now: u64) -> bool {
        self.marks(
            before,
            before.state.switched(at as usize),
            seq![Effect::SyncTitle, Effect::Run(Task::Reparse)] + before.pumping(now) + seq![
                Effect::AskAboutChanges,
            ],
        )
    }

    /// This is `before` after looking for the next unsaved document: in the
    /// focused pane first, then in the first pane that has one.
    pub open spec fn leaves(&self, before: EditorView, leaving: Leaving, now: u64) -> bool {
        match before.state.pane.docs.first_dirty() {
            Some(at) => {
                &&& leaving == Leaving::Asking(at as usize)
                &&& self.asks_on_the_way_out(before, at, now)
            },
            None => match dirty_pane(before.state.panes@) {
                Some(slot) => exists|focused: EditorView|
                    {
                        &&& #[trigger] focused.focuses(
                            before,
                            panes::pane_number(slot, before.state.focused_pane),
                            now,
                        )
                        &&& focused.state.pane.docs.first_dirty() is Some
                        &&& leaving == Leaving::Asking(
                            focused.state.pane.docs.first_dirty()->0 as usize,
                        )
                        &&& self.asks_on_the_way_out(
                            focused,
                            focused.state.pane.docs.first_dirty()->0,
                            now,
                        )
                    },
                None => {
                    &&& leaving == Leaving::Go
                    &&& self.becomes(before, before.state.may_leave(), Seq::empty())
                },
            },
        }
    }

    /// Brings tab `at` to the front, onto the screen, and asks about it.
    fn ask_on_the_way_out(&mut self, at: usize, now: u64)
        requires
            old(self).state.wf(),
            at < old(self).state.pane.docs.list@.len(),
        ensures
            final(self).state.wf(),
            final(self).asks_on_the_way_out(*old(self), at as int, now),
    {
        let shown = self.state.pane.docs.switch(at);
        self.effects.push(Effect::SyncTitle);
        self.effects.push(Effect::Run(Task::Reparse));
        let ghost done = seq![Effect::SyncTitle, Effect::Run(Task::Reparse)];
        assert(self.effects@ =~= old(self).effects@ + done);
        self.show(now);
        assert(self.effects@ =~= old(self).effects@ + (done + old(self).pumping(now)));
        self.effects.push(Effect::AskAboutChanges);
        assert(self.effects@ =~= old(self).effects@ + (done + old(self).pumping(now) + seq![
            Effect::AskAboutChanges,
        ]));
    }

    /// Asks about the next document with unsaved changes, or finds that the
    /// window may go.
    pub fn next_discard(&mut self, now: u64) -> (leaving: Leaving)
        requires
            old(self).state.wf(),
        ensures
            final(self).state.wf(),
            final(self).leaves(*old(self), leaving, now),
            leaving is Go ==> final(self).state.quit.confirmed && !anything_unsaved(
                final(self).state,
            ),
            !(leaving is Stay),
    {
        if let Some(at) = self.state.pane.docs.dirty_index() {
            self.ask_on_the_way_out(at, now);
            return Leaving::Asking(at);
        }
        match find_dirty_pane(&self.state.panes) {
            None => {
                self.state.quit.confirmed = true;
                assert(self.effects@ =~= old(self).effects@ + Seq::<Effect>::empty());
                Leaving::Go
            },
            Some(slot) => {
                let pane = if slot >= self.state.focused_pane {
                    slot + 1
                } else {
                    slot
                };
                self.focus_pane(pane, now);
                let ghost focused = *self;
                proof {
                    let number = panes::pane_number(slot as int, old(self).state.focused_pane);
                    assert(focused.focuses(*old(self), number, now));
                    let all = panes::every_pane(old(self).state);
                    assert(all[pane as int] == old(self).state.panes@[slot as int]);
                }
                match self.state.pane.docs.dirty_index() {
                    Some(at) => {
                        self.ask_on_the_way_out(at, now);
                        Leaving::Asking(at)
                    },
                    None => Leaving::Go,
                }
            },
        }
    }

    /// This is `before` after asking whether the window may go.
    pub open spec fn leaves_window(&self, before: EditorView, leaving: Leaving, now: u64) -> bool {
        &&& before.state.quit.confirmed ==> leaving is Go && *self == before
        &&& !before.state.quit.confirmed ==> {
            &&& exists|noted: EditorView|
                {
                    &&& noted.state.quit.session matches Some(session) && captures(
                        session,
                        before.state,
                    )
                    &&& #[trigger] noted.becomes(
                        before,
                        before.state.leaving_with(noted.state.quit.session),
                        Seq::empty(),
                    )
                    &&& self.leaves(noted, leaving, now)
                }
            &&& leaving is Go ==> !anything_unsaved(self.state)
        }
        &&& leaving is Go ==> self.state.quit.confirmed
    }

    /// Asks about every document with unsaved changes, one at a time, showing
    /// each as it is asked about. Says whether the window may go; see
    /// [`EditorView::leaving_answered`].
    ///
    /// Closing the window and quitting take every tab with them, not only the
    /// one in front, so asking about the active document alone would let the
    /// rest vanish without a word.
    pub fn confirm_discard_all(&mut self, now: u64) -> (leaving: Leaving)
        requires
            old(self).state.wf(),
        ensures
            final(self).state.wf(),
            final(self).leaves_window(*old(self), leaving, now),
    {
        if self.state.quit.confirmed {
            return Leaving::Go;
        }
        let session = self.capture_session();
        self.state.quit.session = Some(session);
        let ghost noted = *self;
        assert(noted.effects@ =~= old(self).effects@ + Seq::<Effect>::empty());
        assert(noted.becomes(
            *old(self),
            old(self).state.leaving_with(noted.state.quit.session),
            Seq::empty(),
        ));
        self.next_discard(now)
    }

    /// The question about tab `index` was answered; `original` is the tab that
    /// was in front when the questions started. Cancel keeps the window and
    /// brings that tab back. A document that is not wanted is closed, which is
    /// what stops it from being asked about again.
    pub fn leaving_answered(
        &mut self,
        original: usize,
        index: usize,
        answer: Discard,
        blank: Buffer,
        now: u64,
    ) -> (leaving: Leaving)
        requires
            old(self).state.wf(),
            blank.wf(),
        ensures
            final(self).state.wf(),
            match answer {
                Discard::Cancel => {
                    let kept = old(self).state.leaving_with(None);
                    &&& leaving == Leaving::Stay
                    &&& final(self).shows(
                        *old(self),
                        if original < kept.pane.docs.list@.len() {
                            kept.switched(original)
                        } else {
                            kept
                        },
                        seq![Effect::SyncTitle, Effect::Run(Task::Reparse)],
                        now,
                    )
                },
                Discard::Saved => final(self).leaves(*old(self), leaving, now),
                Discard::Dropped => exists|closed: EditorView|
                    {
                        &&& tabs::closes(
                            closed.state.pane.docs,
                            old(self).state.pane.docs,
                            index as int,
                            blank,
                        )
                        &&& #[trigger] closed.becomes(
                            *old(self),
                            old(self).state.with_docs(closed.state.pane.docs),
                            Seq::empty(),
                        )
                        &&& final(self).leaves(closed, leaving, now)
                    },
            },
            leaving is Go ==> final(self).state.quit.confirmed && !anything_unsaved(
                final(self).state,
            ),
    {
        match answer {
            Discard::Cancel => {
                self.state.quit.session = None;
                let shown = self.state.pane.docs.switch(original);
                self.effects.push(Effect::SyncTitle);
                self.effects.push(Effect::Run(Task::Reparse));
                let ghost done = seq![Effect::SyncTitle, Effect::Run(Task::Reparse)];
                assert(self.effects@ =~= old(self).effects@ + done);
                self.show(now);
                assert(self.effects@ =~= old(self).effects@ + (done + old(self).pumping(now)));
                Leaving::Stay
            },
            Discard::Saved => self.next_discard(now),
            Discard::Dropped => {
                let gone = self.state.pane.docs.close(index, blank);
                let ghost closed = *self;
                assert(closed.effects@ =~= old(self).effects@ + Seq::<Effect>::empty());
                assert(closed.becomes(
                    *old(self),
                    old(self).state.with_docs(closed.state.pane.docs),
                    Seq::empty(),
                ));
                self.next_discard(now)
            },
        }
    }

    /// This is `before` with the session taken and the servers on their way
    /// out.
    pub open spec fn takes_session(&self, before: EditorView) -> bool {
        self.becomes(before, before.state.leaving_with(None), seq![Effect::ShutdownServers])
    }

    /// Quitting is certain: returns the session to write, if one is to be.
    /// A window that was launched on one file does not replace the session of
    /// the real project.
    pub fn should_terminate(&mut self) -> (session: Option<Session>)
        requires
            old(self).state.wf(),
        ensures
            final(self).state.wf(),
            session == (if old(self).state.quit.ephemeral {
                None
            } else {
                old(self).state.quit.session
            }),
            exists|left: EditorView|
                {
                    &&& #[trigger] left.takes_session(*old(self))
                    &&& final(self).shuts_claude(left)
                },
    {
        let session = self.state.quit.session.take();
        self.ask(Effect::ShutdownServers);
        let ghost left = *self;
        assert(left.takes_session(*old(self)));
        self.claude_shutdown();
        if self.state.quit.ephemeral {
            None
        } else {
            session
        }
    }
}

/// Leaving goes ahead exactly when no document in any pane has unsaved
/// changes, and then leaves every document as it was: nothing open is lost
/// without having been asked about.
pub proof fn nothing_is_lost_on_the_way_out(
    before: EditorView,
    after: EditorView,
    leaving: Leaving,
    now: u64,
)
    requires
        before.state.wf(),
        after.leaves(before, leaving, now),
    ensures
        leaving is Go <==> !anything_unsaved(before.state),
        leaving is Go ==> after.state.pane == before.state.pane && after.state.panes
            == before.state.panes,
{
    documents::first_where_is_first(before.state.pane.docs.list@, |b: Buffer| b.dirty);
    match dirty_pane(before.state.panes@) {
        Some(slot) => {
            a_dirty_pane_is_dirty(before.state.panes@);
            documents::first_where_is_first(
                before.state.panes@[slot].docs.list@,
                |b: Buffer| b.dirty,
            );
        },
        None => {
            no_dirty_pane(before.state.panes@);
        },
    }
}

/// The dirty pane is one of the panes, and has a dirty document.
proof fn a_dirty_pane_is_dirty(panes: Seq<PaneStore>)
    requires
        dirty_pane(panes) is Some,
    ensures
        0 <= dirty_pane(panes)->0 < panes.len(),
        panes[dirty_pane(panes)->0].docs.first_dirty() is Some,
    decreases panes.len(),
{
    if dirty_pane(panes.drop_last()) is Some {
        a_dirty_pane_is_dirty(panes.drop_last());
    }
}

/// Without a dirty pane no document is dirty.
proof fn no_dirty_pane(panes: Seq<PaneStore>)
    requires
        dirty_pane(panes) is None,
    ensures
        forall|p: int, i: int|
            0 <= p < panes.len() && 0 <= i < panes[p].docs.list@.len() ==> !(
            #[trigger] panes[p].docs.list@[i]).dirty,
    decreases panes.len(),
{
    if panes.len() > 0 {
        no_dirty_pane(panes.drop_last());
        let last = panes.last().docs.list@;
        documents::first_where_is_first(last, |b: Buffer| b.dirty);
        assert forall|p: int, i: int|
            0 <= p < panes.len() && 0 <= i < panes[p].docs.list@.len() implies !(
        #[trigger] panes[p].docs.list@[i]).dirty by {
            if p < panes.len() - 1 {
                assert(panes.drop_last()[p].docs.list@[i] == panes[p].docs.list@[i]);
            } else {
                assert(panes[p].docs.list@[i] == last[i]);
            }
        }
    }
}

/// The path of a document is among the paths of its list.
proof fn a_named_document_is_listed(list: Seq<Buffer>, i: int)
    requires
        0 <= i < list.len(),
        list[i].path is Some,
    ensures
        named_paths(list).contains(list[i].path->0),
    decreases list.len(),
{
    let head = named_paths(list.drop_last());
    if i < list.len() - 1 {
        a_named_document_is_listed(list.drop_last(), i);
        let k = choose|k: int| 0 <= k < head.len() && head[k] == list[i].path->0;
        assert(named_paths(list)[k] == list[i].path->0);
    } else {
        assert(named_paths(list)[head.len() as int] == list[i].path->0);
    }
}

/// The path of a document is among the paths of the panes it is in.
proof fn a_pane_is_listed(panes: Seq<PaneStore>, p: int, i: int)
    requires
        0 <= p < panes.len(),
        0 <= i < panes[p].docs.list@.len(),
        panes[p].docs.list@[i].path is Some,
    ensures
        pane_paths(panes).contains(panes[p].docs.list@[i].path->0),
    decreases panes.len(),
{
    let place = panes[p].docs.list@[i].path->0;
    let head = pane_paths(panes.drop_last());
    let tail = named_paths(panes.last().docs.list@);
    if p < panes.len() - 1 {
        a_pane_is_listed(panes.drop_last(), p, i);
        let k = choose|k: int| 0 <= k < head.len() && head[k] == place;
        assert((head + tail)[k] == place);
    } else {
        a_named_document_is_listed(panes.last().docs.list@, i);
        let k = choose|k: int| 0 <= k < tail.len() && tail[k] == place;
        assert((head + tail)[head.len() + k] == place);
    }
}

/// Every file that is open in some pane is remembered for the next launch.
pub proof fn every_open_file_is_remembered(state: State, p: int, i: int)
    requires
        0 <= p < panes::every_pane(state).len(),
        0 <= i < panes::every_pane(state)[p].docs.list@.len(),
        panes::every_pane(state)[p].docs.list@[i].path is Some,
        state.focused_pane <= state.panes@.len(),
    ensures
        open_files(state).contains(panes::every_pane(state)[p].docs.list@[i].path->0),
{
    let place = panes::every_pane(state)[p].docs.list@[i].path->0;
    let head = named_paths(state.pane.docs.list@);
    let tail = pane_paths(state.panes@);
    if p == state.focused_pane {
        a_named_document_is_listed(state.pane.docs.list@, i);
        let k = choose|k: int| 0 <= k < head.len() && head[k] == place;
        assert((head + tail)[k] == place);
    } else {
        let slot = if p > state.focused_pane {
            p - 1
        } else {
            p
        };
        assert(panes::every_pane(state)[p] == state.panes@[slot]);
        a_pane_is_listed(state.panes@, slot, i);
        let k = choose|k: int| 0 <= k < tail.len() && tail[k] == place;
        assert((head + tail)[head.len() + k] == place);
    }
}

} // verus!
