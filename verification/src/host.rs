//! The window as the tools that the assistant calls see it.

use crate::buffer::Buffer;
use crate::claude::{self, Bridge, Review};
use crate::disk;
use crate::documents::{self, Documents};
use crate::files::Opened;
use crate::panes::{self, find_pane_with, PaneStore};
use crate::places::FilePlace;
use crate::path::{self, file_name};
use crate::servers::lsp_language;
use crate::state::{EditorView, Effect, Hints, State, Task};
use crate::tabs;
use crate::text::{joined, joined3, same};
use vstd::prelude::*;
use vstd::string::*;

verus! {

/// Whether `after` is `before` with document `id` closed in the first pane
/// without the keyboard that has it. A pane whose last tab that was goes with
/// it.
pub open spec fn closes_in_panes(after: State, before: State, id: u64, blank: Buffer) -> bool {
    match panes::pane_with_id(before.panes@, id) {
        None => after == before,
        Some(p) => {
            let docs = before.panes@[p].docs;
            if docs.list@.len() > 1 {
                &&& tabs::closes(after.panes@[p].docs, docs, docs.position_with(id)->0, blank)
                &&& after.panes@ == before.panes@.update(
                    p,
                    PaneStore { docs: after.panes@[p].docs, ..before.panes@[p] },
                )
                &&& after == (State { panes: after.panes, ..before })
            } else {
                &&& after.panes@ == before.panes@.remove(p)
                &&& after == (State {
                    panes: after.panes,
                    focused_pane: if p < before.focused_pane {
                        (before.focused_pane - 1) as usize
                    } else {
                        before.focused_pane
                    },
                    ..before
                })
            }
        },
    }
}

/// Closes document `id` in the first pane without the keyboard that has it.
fn close_in_panes(state: &mut State, id: u64, blank: Buffer)
    requires
        old(state).wf(),
        blank.wf(),
    ensures
        final(state).wf(),
        closes_in_panes(*final(state), *old(state), id, blank),
{
    if let Some((p, i)) = find_pane_with(&state.panes, id) {
        if state.panes[p].docs.len() > 1 {
            let gone = state.panes[p].docs.close(i, blank);
        } else {
            let gone = state.panes.remove(p);
            if p < state.focused_pane {
                state.focused_pane -= 1;
            }
        }
    }
}

impl EditorView {
    /// This is `before` with the review `id` rejected, if it was waiting, and
    /// forgotten.
    pub open spec fn forgets_review(&self, before: EditorView, id: u64) -> bool {
        &&& claude::drops_review(self.state, before.state, id)
        &&& self.ivars == before.ivars
        &&& self.effects@ == before.effects@ + claude::closing_answer(before.state, id)
    }

    /// This is `forgot` with the tab of `id` closed, wherever it is.
    pub open spec fn closes_wherever(
        &self,
        forgot: EditorView,
        id: u64,
        blank: Buffer,
        asking: bool,
        now: u64,
    ) -> bool {
        match forgot.state.pane.docs.position_with(id) {
            Some(index) => self.closes_tab(forgot, index, blank, asking, now),
            None => {
                &&& !asking
                &&& closes_in_panes(self.state, forgot.state, id, blank)
                &&& self.ivars == forgot.ivars
                &&& self.effects == forgot.effects
            },
        }
    }

    /// This is `closed` with a frame under way.
    pub open spec fn shows_closed(&self, closed: EditorView, now: u64) -> bool {
        self.shows(closed, closed.state, Seq::empty(), now)
    }

    /// This is `before` with the tab of the review `id` closed.
    pub open spec fn closes_review(
        &self,
        before: EditorView,
        id: u64,
        blank: Buffer,
        asking: bool,
        now: u64,
    ) -> bool {
        exists|forgot: EditorView, closed: EditorView|
            {
                &&& #[trigger] forgot.forgets_review(before, id)
                &&& closed.closes_wherever(forgot, id, blank, asking, now)
                &&& #[trigger] self.shows_closed(closed, now)
            }
    }

    /// Closes the tab of the review `id`, wherever it is. Returns whether that
    /// is being asked about.
    pub fn claude_close_review(&mut self, id: u64, blank: Buffer, now: u64) -> (asking: bool)
        requires
            old(self).state.wf(),
            blank.wf(),
        ensures
            final(self).state.wf(),
            final(self).closes_review(*old(self), id, blank, asking, now),
    {
        self.forget_review(id);
        let ghost forgot = *self;
        assert(forgot.forgets_review(*old(self), id));
        let mut asking = false;
        match self.state.pane.docs.index_with(id) {
            Some(index) => {
                asking = self.close_tab(index, blank, now);
            },
            None => {
                close_in_panes(&mut self.state, id, blank);
            },
        }
        let ghost closed = *self;
        assert(closed.closes_wherever(forgot, id, blank, asking, now));
        self.show(now);
        assert(self.shows_closed(closed, now));
        asking
    }
}

/// Whether `b` is a blank document that nothing was done with.
pub open spec fn is_blank(b: Buffer) -> bool {
    b.path is None && b.label is None && b.text@.len() == 0 && !b.dirty
}

/// Closing tab `id` takes it away and keeps the others.
proof fn closing_takes_one(after: Documents, before: Documents, id: u64, blank: Buffer)
    requires
        before.position_with(id) is Some,
        panes::once_in(before, id),
        blank.id != id,
        tabs::closes(after, before, before.position_with(id)->0, blank),
    ensures
        after.position_with(id) is None,
        forall|b: Buffer| #[trigger]
            before.list@.contains(b) && b.id != id ==> after.list@.contains(b),
{
    let hit = |b: Buffer| b.id == id;
    documents::first_where_is_first(before.list@, hit);
    let at = before.position_with(id)->0;
    let list = before.list@;
    assert forall|i: int| 0 <= i < after.list@.len() implies !hit(#[trigger] after.list@[i]) by {
        if list.len() > 1 {
            let j = if i < at {
                i
            } else {
                i + 1
            };
            assert(after.list@[i] == list[j]);
            assert(list[at].id == id);
        }
    }
    documents::first_where_none(after.list@, hit);
    assert forall|b: Buffer| #[trigger] list.contains(b) && b.id != id implies after.list@.contains(
        b,
    ) by {
        let j = choose|j: int| 0 <= j < list.len() && list[j] == b;
        assert(j != at);
        let i = if j < at {
            j
        } else {
            j - 1
        };
        assert(after.list@[i] == b);
    }
}

/// The same, in a pane without the keyboard.
proof fn closing_elsewhere_takes_one(after: State, before: State, id: u64, blank: Buffer)
    requires
        before.pane.docs.position_with(id) is None,
        panes::once(before, id),
        blank.id != id,
        closes_in_panes(after, before, id, blank),
    ensures
        panes::document(after, id) is None,
        forall|b: Buffer| #[trigger]
            panes::is_open(before, b) && b.id != id ==> panes::is_open(after, b),
{
    let stored = before.panes@;
    panes::pane_with_id_is_first(stored, id);
    if let Some(p) = panes::pane_with_id(stored, id) {
        let docs = stored[p].docs;
        let single = docs.list@.len() <= 1;
        if !single {
            closing_takes_one(after.panes@[p].docs, docs, id, blank);
        }
        assert forall|q: int| 0 <= q < after.panes@.len() implies (
        #[trigger] after.panes@[q]).docs.position_with(id) is None by {
            let from = if single && q >= p {
                q + 1
            } else {
                q
            };
            if single || q != p {
                assert(after.panes@[q] == stored[from]);
                if stored[from].docs.position_with(id) is Some {
                    assert(stored[p].docs.position_with(id) is Some);
                }
            }
        }
        panes::not_found(after, id);
        assert forall|b: Buffer| #[trigger] panes::is_open(before, b) && b.id != id implies panes::is_open(
            after,
            b,
        ) by {
            if !before.pane.docs.list@.contains(b) {
                let q = choose|q: int|
                    0 <= q < stored.len() && (#[trigger] stored[q]).docs.list@.contains(b);
                if single && q == p {
                    let hit = |b: Buffer| b.id == id;
                    documents::first_where_is_first(docs.list@, hit);
                    let j = choose|j: int| 0 <= j < docs.list@.len() && docs.list@[j] == b;
                    assert(docs.list@[0].id == id);
                } else {
                    let to = if single && q > p {
                        q - 1
                    } else {
                        q
                    };
                    assert(after.panes@[to].docs.list@.contains(b));
                }
            }
        }
    } else {
        panes::not_found(after, id);
    }
}

/// The same, in the pane with the keyboard.
proof fn closing_here_takes_one(
    after: EditorView,
    before: EditorView,
    id: u64,
    blank: Buffer,
    now: u64,
)
    requires
        before.state.focused_pane <= before.state.panes@.len(),
        before.state.pane.docs.position_with(id) is Some,
        panes::once(before.state, id),
        blank.id != id,
        after.finishes_close(before, before.state.pane.docs.position_with(id)->0, blank, now),
    ensures
        panes::document(after.state, id) is None,
        forall|b: Buffer| #[trigger]
            panes::is_open(before.state, b) && b.id != id && !is_blank(b) ==> panes::is_open(
                after.state,
                b,
            ),
{
    let index = before.state.pane.docs.position_with(id)->0;
    let closed = choose|closed: EditorView|
        {
            &&& tabs::closes(closed.state.pane.docs, before.state.pane.docs, index, blank)
            &&& #[trigger] closed.becomes(
                before,
                before.state.after_closing(closed.state.pane.docs),
                tabs::goodbye(before.state.pane.docs, index),
            )
            &&& if closed.state.pane.docs.at_home() && closed.state.panes@.len() > 0 {
                after.drops_pane(closed, now)
            } else {
                after.shows(
                    closed,
                    closed.state,
                    seq![Effect::SyncTitle, Effect::Run(Task::Reparse)],
                    now,
                )
            }
        };
    closing_takes_one(closed.state.pane.docs, before.state.pane.docs, id, blank);
    let stored = before.state.panes@;
    assert(closed.state.panes == before.state.panes);
    let dropped = closed.state.pane.docs.at_home() && stored.len() > 0;
    let focus = if closed.state.focused_pane > 0 {
        closed.state.focused_pane - 1
    } else {
        0
    };
    if dropped {
        panes::panes_come_back(closed.state);
        assert(after.state.pane == stored[focus]);
        assert(after.state.panes@ == stored.remove(focus));
    }
    assert forall|q: int| 0 <= q < after.state.panes@.len() implies (
    #[trigger] after.state.panes@[q]).docs.position_with(id) is None by {
        let from = if dropped && q >= focus {
            q + 1
        } else {
            q
        };
        assert(after.state.panes@[q] == stored[from]);
    }
    panes::not_found(after.state, id);
    assert forall|b: Buffer| #[trigger]
        panes::is_open(before.state, b) && b.id != id && !is_blank(b) implies panes::is_open(
        after.state,
        b,
    ) by {
        if before.state.pane.docs.list@.contains(b) {
            assert(closed.state.pane.docs.list@.contains(b));
        } else {
            let q = choose|q: int|
                0 <= q < stored.len() && (#[trigger] stored[q]).docs.list@.contains(b);
            if dropped {
                if q != focus {
                    let to = if q > focus {
                        q - 1
                    } else {
                        q
                    };
                    assert(after.state.panes@[to].docs.list@.contains(b));
                }
            } else {
                assert(after.state.panes@[q].docs.list@.contains(b));
            }
        }
    }
}

/// Closing a review closes its tab, wherever it is, unless it is being asked
/// about: no pane has it any more, and every other document is still open as it
/// was. A blank one goes with the pane that has nothing else.
pub proof fn a_closed_review_is_gone(
    before: EditorView,
    after: EditorView,
    id: u64,
    blank: Buffer,
    now: u64,
)
    requires
        before.state.wf(),
        panes::once(before.state, id),
        blank.id != id,
        after.closes_review(before, id, blank, false, now),
    ensures
        after.state.claude.bridge matches Some(bridge) ==> !bridge.reviews@.contains_key(id),
        panes::document(after.state, id) is None,
        forall|b: Buffer| #[trigger]
            panes::is_open(before.state, b) && b.id != id && !is_blank(b) ==> panes::is_open(
                after.state,
                b,
            ),
{
    let (forgot, closed) = choose|forgot: EditorView, closed: EditorView|
        {
            &&& #[trigger] forgot.forgets_review(before, id)
            &&& closed.closes_wherever(forgot, id, blank, false, now)
            &&& #[trigger] after.shows_closed(closed, now)
        };
    assert(forgot.state.pane == before.state.pane && forgot.state.panes == before.state.panes);
    match forgot.state.pane.docs.position_with(id) {
        Some(index) => {
            let answered = choose|answered: EditorView|
                {
                    &&& #[trigger] answered.answers_tab(forgot, index)
                    &&& closed.finishes_close(answered, index, blank, now)
                };
            assert(answered.state.pane == before.state.pane && answered.state.panes
                == before.state.panes);
            closing_here_takes_one(closed, answered, id, blank, now);
        },
        None => {
            closing_elsewhere_takes_one(closed.state, forgot.state, id, blank);
        },
    }
    assert forall|b: Buffer| #[trigger]
        panes::is_open(before.state, b) && b.id != id && !is_blank(b) implies panes::is_open(
        after.state,
        b,
    ) by {
        assert(panes::is_open(forgot.state, b));
        match forgot.state.pane.docs.position_with(id) {
            Some(index) => {
                let answered = choose|answered: EditorView|
                    {
                        &&& #[trigger] answered.answers_tab(forgot, index)
                        &&& closed.finishes_close(answered, index, blank, now)
                    };
                assert(panes::is_open(answered.state, b));
            },
            None => {},
        }
        assert(panes::is_open(closed.state, b));
    }
}

/// What a tool is told of an open document.
pub struct Editor {
    pub path: Option<String>,
    pub label: String,
    /// The language, when there is one.
    pub language: Option<u8>,
    pub active: bool,
    pub dirty: bool,
}

/// What a document is called.
pub open spec fn label_of(b: Buffer) -> Seq<char> {
    match disk::name_of(b) {
        Some(name) => name,
        None => match b.label {
            Some(label) => label@,
            None => "Untitled"@,
        },
    }
}

/// Whether `e` is what a tool is told of `b`; `active` is the document in
/// front.
pub open spec fn describes(e: Editor, b: Buffer, active: u64) -> bool {
    &&& e.path == b.path
    &&& e.label@ == label_of(b)
    &&& e.language == (if b.path is Some && b.language is Some {
        Some(b.language->0.id)
    } else {
        None
    })
    &&& e.active == (b.id == active)
    &&& e.dirty == b.dirty
}

/// The documents of `list` that are not reviews.
pub open spec fn not_reviews(list: Seq<Buffer>, s: State) -> Seq<Buffer>
    decreases list.len(),
{
    if list.len() == 0 {
        Seq::empty()
    } else {
        let head = not_reviews(list.drop_last(), s);
        if s.claude.bridge matches Some(bridge) && bridge.has_review(list.last().id) {
            head
        } else {
            head.push(list.last())
        }
    }
}

/// Whether `told` describes `list`, one by one.
pub open spec fn describes_all(told: Seq<Editor>, list: Seq<Buffer>, active: u64) -> bool {
    &&& told.len() == list.len()
    &&& forall|i: int| 0 <= i < told.len() ==> describes(#[trigger] told[i], list[i], active)
}

impl EditorView {
    /// What a tool is told of one document.
    fn editor_of(&self, b: &Buffer, active: u64) -> (e: Editor)
        ensures
            describes(e, *b, active),
    {
        let name = match &b.path {
            Some(place) => file_name(place.as_str()),
            None => None,
        };
        let label = match name {
            Some(name) => name,
            None => match &b.label {
                Some(label) => label.clone(),
                None => "Untitled".to_owned(),
            },
        };
        Editor {
            path: b.path.clone(),
            label,
            language: match lsp_language(b) {
                Some(language) => Some(language.id),
                None => None,
            },
            active: b.id == active,
            dirty: b.dirty,
        }
    }

    /// Adds what a tool is told of `list` to `told`.
    fn add_editors(
        &self,
        told: &mut Vec<Editor>,
        list: &Vec<Buffer>,
        active: u64,
        Ghost(before): Ghost<Seq<Buffer>>,
    )
        requires
            self.state.wf(),
            describes_all(old(told)@, not_reviews(before, self.state), active),
        ensures
            describes_all(final(told)@, not_reviews(before + list@, self.state), active),
    {
        let mut i: usize = 0;
        assert(before + list@.take(0) =~= before);
        while i < list.len()
            invariant
                self.state.wf(),
                i <= list@.len(),
                describes_all(
                    told@,
                    not_reviews(before + list@.take(i as int), self.state),
                    active,
                ),
            decreases list@.len() - i,
        {
            let ghost so_far = before + list@.take(i as int);
            proof {
                assert(before + list@.take(i + 1) =~= so_far.push(list@[i as int]));
                assert(so_far.push(list@[i as int]).drop_last() =~= so_far);
            }
            let reviewed = match &self.state.claude.bridge {
                Some(bridge) => bridge.reviews.contains(list[i].id),
                None => false,
            };
            if !reviewed {
                let e = self.editor_of(&list[i], active);
                told.push(e);
            }
            i += 1;
        }
        assert(before + list@.take(list@.len() as int) =~= before + list@);
    }

    /// The open documents, every pane's, without the reviews.
    pub fn open_editors(&self) -> (told: Vec<Editor>)
        requires
            self.state.wf(),
        ensures
            describes_all(
                told@,
                not_reviews(disk::all_documents(self.state), self.state),
                self.state.pane.docs.front().id,
            ),
    {
        let active = self.state.pane.docs.active().id;
        let mut told: Vec<Editor> = Vec::new();
        let ghost none = Seq::<Buffer>::empty();
        self.add_editors(&mut told, &self.state.pane.docs.list, active, Ghost(none));
        let ghost front = self.state.pane.docs.list@;
        let panes = &self.state.panes;
        assert(none + front =~= front + disk::pane_documents(panes@.take(0))) by {
            assert(panes@.take(0) =~= Seq::empty());
        }
        let mut p: usize = 0;
        while p < panes.len()
            invariant
                self.state.wf(),
                p <= panes@.len(),
                describes_all(
                    told@,
                    not_reviews(
                        front + disk::pane_documents(panes@.take(p as int)),
                        self.state,
                    ),
                    active,
                ),
            decreases panes@.len() - p,
        {
            let ghost so_far = front + disk::pane_documents(panes@.take(p as int));
            self.add_editors(&mut told, &panes[p].docs.list, active, Ghost(so_far));
            proof {
                assert(panes@.take(p + 1).drop_last() =~= panes@.take(p as int));
                assert(so_far + panes@[p as int].docs.list@ =~= front + disk::pane_documents(
                    panes@.take(p + 1),
                ));
            }
            p += 1;
        }
        assert(panes@.take(panes@.len() as int) =~= panes@);
        told
    }

    /// The folders that the assistant works in.
    pub fn workspace_folders(&self) -> (folders: Vec<String>)
        ensures
            folders@ == (match self.state.claude.bridge {
                Some(bridge) => seq![bridge.root],
                None => Seq::empty(),
            }),
    {
        let mut folders: Vec<String> = Vec::new();
        if let Some(bridge) = &self.state.claude.bridge {
            folders.push(bridge.root.clone());
            assert(folders@ =~= seq![bridge.root]);
        }
        folders
    }
}

impl EditorView {
    /// Whether the file at `place` has unsaved changes, and whether it has no
    /// file yet, when it is open.
    pub fn document_state(&self, place: &FilePlace) -> (told: Option<(bool, bool)>)
        ensures
            match (told, place.document_in(self.state)) {
                (Some((dirty, untitled)), Some(b)) => dirty == b.dirty && !untitled,
                (None, None) => true,
                _ => false,
            },
    {
        match place.find_document(&self.state) {
            Some(b) => Some((b.dirty, false)),
            None => None,
        }
    }

    /// This is `before` after the document at `place` was written as `saved`.
    pub open spec fn saved_elsewhere(
        &self,
        before: EditorView,
        place: FilePlace,
        saved: Buffer,
        now: u64,
    ) -> bool {
        let state = State { pane: self.state.pane, panes: self.state.panes, ..before.state };
        &&& place.put_in(state, before.state, saved)
        &&& self.shows(
            before,
            state,
            seq![Effect::RefreshGit] + (match saved.path {
                Some(path) => seq![Effect::Run(Task::LspFlushChanges), Effect::DidSave(path)],
                None => Seq::empty(),
            }) + seq![Effect::SyncTitle],
            now,
        )
    }

    /// The assistant wants the file at `place` saved; `written` is the document
    /// as it was written, or why it could not be. Returns whether there was one.
    pub fn save_for_assistant(
        &mut self,
        place: &FilePlace,
        written: Result<Buffer, String>,
        now: u64,
    ) -> (outcome: Result<bool, String>)
        requires
            old(self).state.wf(),
            written matches Ok(saved) ==> saved.wf(),
        ensures
            final(self).state.wf(),
            match (place.document_in(old(self).state), written) {
                (None, _) => outcome == Ok::<bool, String>(false) && *final(self) == *old(self),
                (Some(_), Err(error)) => outcome == Err::<bool, String>(error) && *final(self)
                    == *old(self),
                (Some(_), Ok(saved)) => outcome == Ok::<bool, String>(true)
                    && final(self).saved_elsewhere(*old(self), *place, saved, now),
            },
    {
        if place.find_document(&self.state).is_none() {
            return Ok(false);
        }
        let saved = match written {
            Err(error) => {
                return Err(error);
            },
            Ok(saved) => saved,
        };
        let ghost document = saved;
        let path = saved.path.clone();
        place.put(&mut self.state, saved);
        let ghost state = self.state;
        self.effects.push(Effect::RefreshGit);
        let ghost mut done = seq![Effect::RefreshGit];
        if let Some(path) = path {
            self.effects.push(Effect::Run(Task::LspFlushChanges));
            self.effects.push(Effect::DidSave(path));
            proof {
                done = done + seq![Effect::Run(Task::LspFlushChanges), Effect::DidSave(path)];
            }
        }
        self.effects.push(Effect::SyncTitle);
        proof {
            done = done + seq![Effect::SyncTitle];
        }
        assert(self.effects@ =~= old(self).effects@ + done);
        self.show(now);
        assert(self.effects@ =~= old(self).effects@ + (done + old(self).pumping(now)));
        assert(Seq::<Effect>::empty() + seq![Effect::SyncTitle] =~= seq![Effect::SyncTitle]);
        assert(self.saved_elsewhere(*old(self), *place, document, now));
        Ok(true)
    }
}

/// What is selected in a file that the assistant had opened: from the first place
/// where `start` stands to the end of the next `end`, or of `start` itself.
/// Empty means not given.
pub open spec fn between(text: Seq<u8>, start: Seq<u8>, end: Seq<u8>) -> Option<(int, int)> {
    if start.len() == 0 {
        None
    } else {
        match crate::buffer::found_at(text, start, 0) {
            None => None,
            Some(from) => match crate::buffer::found_at(text, end, from) {
                Some(to) if end.len() > 0 => Some((from, to + end.len() as int)),
                _ => Some((from, from + start.len() as int)),
            },
        }
    }
}

impl EditorView {
    /// This is `before` with what stands between `start` and `end` selected.
    pub open spec fn selects_between(
        &self,
        before: EditorView,
        start: Seq<u8>,
        end: Seq<u8>,
        now: u64,
    ) -> bool {
        let front = before.state.pane.docs.front();
        let tail = seq![Effect::SyncTitle, Effect::Run(Task::Reparse)];
        match between(front.text@, start, end) {
            Some((a, b)) => {
                &&& self.state.pane.docs.fronts(
                    before.state.pane.docs,
                    front.selecting(a as usize, b as usize),
                )
                &&& self.shows(
                    before,
                    before.state.with_docs(self.state.pane.docs),
                    seq![Effect::ScrollToCursor] + tail,
                    now,
                )
            },
            None => self.shows(before, before.state, tail, now),
        }
    }

    /// A file that the assistant had opened is in front: selects what it named.
    pub fn select_between(&mut self, start: &Vec<u8>, end: &Vec<u8>, now: u64)
        requires
            old(self).state.wf(),
        ensures
            final(self).state.wf(),
            final(self).selects_between(*old(self), start@, end@, now),
    {
        let ghost tail = seq![Effect::SyncTitle, Effect::Run(Task::Reparse)];
        let ghost mut done = Seq::<Effect>::empty();
        let mut range: Option<(usize, usize)> = None;
        let text = &self.state.pane.docs.active().text;
        let n = text.len();
        assert(n == text@.len());
        if start.len() > 0 {
            if let Some(from) = crate::buffer::find_bytes(text, start, 0) {
                let to = crate::buffer::find_bytes(text, end, from);
                range = match to {
                    Some(to) if end.len() > 0 => Some((from, to + end.len())),
                    _ => Some((from, from + start.len())),
                };
            }
        }
        if let Some((a, b)) = range {
            self.state.pane.docs.select_in_front(a, b);
            self.effects.push(Effect::ScrollToCursor);
            proof {
                done = seq![Effect::ScrollToCursor];
            }
        }
        assert(self.effects@ =~= old(self).effects@ + done);
        self.effects.push(Effect::SyncTitle);
        self.effects.push(Effect::Run(Task::Reparse));
        assert(self.effects@ =~= old(self).effects@ + (done + tail));
        self.show(now);
        assert(Seq::<Effect>::empty() + tail =~= tail);
        assert(self.effects@ =~= old(self).effects@ + (done + tail + old(self).pumping(now)));
    }
}

impl EditorView {
    /// The assistant wants the file at `place` in front, and what stands
    /// between `start` and `end` in it selected. See
    /// [`load_path`](EditorView::load_path) for the rest; a folder is not
    /// opened.
    pub fn open_for_assistant(
        &mut self,
        place: &str,
        key: &str,
        folder: Option<String>,
        found: Opened,
        limit: &str,
        start: &Vec<u8>,
        end: &Vec<u8>,
        now: u64,
    ) -> (outcome: Result<(), String>)
        requires
            old(self).state.wf(),
            found matches Opened::File(buffer) ==> buffer.wf(),
        ensures
            final(self).state.wf(),
            outcome is Err <==> found is Folder,
            outcome matches Err(error) ==> {
                &&& error@ == "cannot open "@ + place@
                &&& *final(self) == *old(self)
            },
            outcome is Ok ==> exists|opened: EditorView|
                {
                    &&& #[trigger] opened.opens_path(
                        *old(self),
                        folder,
                        place@,
                        key@,
                        found,
                        limit@,
                        now,
                    )
                    &&& final(self).selects_between(opened, start@, end@, now)
                },
    {
        if let Opened::Folder = found {
            return Err(joined("cannot open ", place));
        }
        let ghost what = found;
        let opened = self.load_path(place, key, folder, found, limit, now);
        let ghost open = *self;
        assert(open.opens_path(*old(self), folder, place@, key@, what, limit@, now));
        self.select_between(start, end, now);
        Ok(())
    }
}

/// The first review whose tab the assistant calls `name`.
pub open spec fn tab_named(rows: Seq<(u64, Review)>, name: Seq<char>) -> Option<u64>
    decreases rows.len(),
{
    if rows.len() == 0 {
        None
    } else {
        match tab_named(rows.drop_last(), name) {
            Some(id) => Some(id),
            None => if rows.last().1.tab_name@ == name {
                Some(rows.last().0)
            } else {
                None
            },
        }
    }
}

impl Bridge {
    /// See [`tab_named`].
    pub fn buffer_for_tab(&self, name: &str) -> (id: Option<u64>)
        ensures
            id == tab_named(self.reviews.rows@, name@),
    {
        let rows = &self.reviews.rows;
        let mut found: Option<u64> = None;
        let mut i: usize = 0;
        assert(rows@.take(0) =~= Seq::empty());
        while i < rows.len()
            invariant
                *rows == self.reviews.rows,
                i <= rows@.len(),
                found == tab_named(rows@.take(i as int), name@),
            decreases rows@.len() - i,
        {
            assert(rows@.take(i + 1).drop_last() =~= rows@.take(i as int));
            if found.is_none() && same(rows[i].1.tab_name.as_str(), name) {
                found = Some(rows[i].0);
            }
            i += 1;
        }
        assert(rows@.take(rows@.len() as int) =~= rows@);
        found
    }
}

/// The review whose tab the assistant calls `name`.
pub open spec fn review_named(s: State, name: Seq<char>) -> Option<u64> {
    match s.claude.bridge {
        Some(bridge) => tab_named(bridge.reviews.rows@, name),
        None => None,
    }
}

/// An edit that the assistant proposes.
pub struct Proposal {
    pub tab_name: String,
    pub path: String,
    /// The file as it would be.
    pub contents: Vec<u8>,
    /// The file as it is.
    pub old_path: String,
    /// Why that cannot be read, if it is there and cannot be.
    pub unreadable: Option<String>,
}

/// What the file of a proposal is called.
pub open spec fn proposal_name(p: Proposal) -> Seq<char> {
    match path::file_name_of(p.path@) {
        Some(name) => name,
        None => p.tab_name@,
    }
}

impl State {
    /// The state with the review in front taking the editor column: nothing
    /// may cover it.
    pub open spec fn taking_over(self) -> State {
        State {
            git: crate::git::GitPanel { showing_diff: false, ..self.git },
            pane: PaneStore {
                preview: None,
                tab_scroll: tabs::revealed_scroll(self.pane, self.tab_bar.ends_at),
                ..self.pane
            },
            hints: Hints { completion: None, ..self.hints },
            ..self
        }
    }
}

/// Whether `docs` is `before` with the proposal in front: in the tab of the
/// one it takes over, `earlier`, or in a tab of its own.
pub open spec fn proposal_placed(
    docs: Documents,
    before: Documents,
    earlier: Option<u64>,
    p: Proposal,
    fresh: u64,
) -> bool {
    let reuse = match earlier {
        Some(id) => before.position_with(id),
        None => None,
    };
    match reuse {
        Some(i) => {
            &&& docs.active == i
            &&& docs.list@ == before.list@.update(i, docs.list@[i])
            &&& docs.list@[i].regenerates(before.list@[i], p.contents@)
        },
        None => {
            &&& docs.front().is_generated(
                fresh,
                "\u{273b} "@ + proposal_name(p),
                "txt"@,
                p.contents@,
            )
            &&& if before.at_home() {
                docs.list@ == seq![docs.front()] && docs.active == 0
            } else {
                docs.list@ == before.list@.push(docs.front()) && docs.active
                    == before.list@.len()
            }
        },
    }
}

impl EditorView {
    /// Puts a proposal in front.
    fn place_proposal(
        &mut self,
        earlier: Option<u64>,
        contents: Vec<u8>,
        name: &str,
        fresh: u64,
        Ghost(p): Ghost<Proposal>,
    )
        requires
            old(self).state.wf(),
            contents == p.contents,
            name@ == proposal_name(p),
        ensures
            final(self).state.wf(),
            final(self).state == old(self).state.with_docs(final(self).state.pane.docs),
            final(self).ivars == old(self).ivars,
            final(self).effects == old(self).effects,
            proposal_placed(
                final(self).state.pane.docs,
                old(self).state.pane.docs,
                earlier,
                p,
                fresh,
            ),
    {
        let reuse = match earlier {
            Some(id) => self.state.pane.docs.index_with(id),
            None => None,
        };
        match reuse {
            Some(i) => {
                let shown = self.state.pane.docs.switch(i);
                self.state.pane.docs.list[i].regenerate(contents);
            },
            None => {
                let b = Buffer::generated(fresh, joined("\u{273b} ", name), "txt", contents);
                self.state.pane.docs.push(b);
            },
        }
    }

    /// This is `forgot` with the proposal in front, waiting for an answer.
    pub open spec fn proposes(
        &self,
        forgot: EditorView,
        earlier: Option<u64>,
        p: Proposal,
        fresh: u64,
        now: u64,
    ) -> bool {
        let docs = self.state.pane.docs;
        let bridge = self.state.claude.bridge;
        &&& proposal_placed(docs, forgot.state.pane.docs, earlier, p, fresh)
        &&& bridge matches Some(new)
        &&& forgot.state.claude.bridge matches Some(old)
        &&& new.with_reviews(old)
        &&& new.reviews@ == old.reviews@.insert(
            docs.front().id,
            Review { tab_name: p.tab_name, path: p.path, decided: false },
        )
        &&& self.state.says(
            forgot.state.claude.assistant.name@ + " proposes a change to "@ + proposal_name(p),
            now,
        )
        &&& self.state == forgot.state.with_docs(docs).with_bridge(bridge).taking_over().saying(
            self.state.status.message->0,
        ).restless()
        &&& self.ivars == (crate::state::Ivars { needs_redraw: true, ..forgot.ivars })
        &&& self.effects@ == forgot.effects@ + (seq![
            Effect::SyncTitle,
            Effect::InvalidateCursorRects,
        ] + forgot.pumping(now) + seq![Effect::ResumeDisplayLink])
    }

    /// Shows the edit the assistant proposes in a tab of its own. A second proposal
    /// under the same name takes over the tab of the first, which is answered
    /// as rejected.
    pub fn open_diff(&mut self, p: Proposal, fresh: u64, now: u64) -> (outcome: Result<(), String>)
        requires
            old(self).state.wf(),
        ensures
            final(self).state.wf(),
            match (p.unreadable, old(self).state.claude.bridge) {
                (Some(reason), _) => {
                    &&& outcome matches Err(error) && error@ == "cannot read "@ + p.old_path@
                        + (": "@ + reason@)
                    &&& *final(self) == *old(self)
                },
                (None, None) => {
                    &&& outcome matches Err(error) && error@ == "not connected"@
                    &&& *final(self) == *old(self)
                },
                (None, Some(_)) => {
                    let earlier = review_named(old(self).state, p.tab_name@);
                    &&& outcome is Ok
                    &&& exists|forgot: EditorView|
                        {
                            &&& #[trigger] forgot.is_rid_of(*old(self), earlier)
                            &&& final(self).proposes(forgot, earlier, p, fresh, now)
                        }
                },
            },
    {
        if let Some(reason) = &p.unreadable {
            return Err(
                joined3("cannot read ", p.old_path.as_str(), joined(": ", reason).as_str()),
            );
        }
        let earlier = match &self.state.claude.bridge {
            Some(bridge) => bridge.buffer_for_tab(p.tab_name.as_str()),
            None => {
                return Err("not connected".to_owned());
            },
        };
        let ghost proposal = p;
        if let Some(id) = earlier {
            self.forget_review(id);
        }
        let ghost forgot = *self;
        assert(forgot.is_rid_of(*old(self), earlier));
        let name = match file_name(p.path.as_str()) {
            Some(name) => name,
            None => p.tab_name.clone(),
        };
        self.place_proposal(earlier, p.contents, name.as_str(), fresh, Ghost(proposal));
        self.await_answer(p.tab_name, p.path);
        self.say(
            joined3(
                self.state.claude.assistant.name.as_str(),
                " proposes a change to ",
                name.as_str(),
            ),
            now,
        );
        self.effects.push(Effect::SyncTitle);
        self.effects.push(Effect::InvalidateCursorRects);
        let ghost done = seq![Effect::SyncTitle, Effect::InvalidateCursorRects];
        assert(self.effects@ =~= forgot.effects@ + done);
        self.show(now);
        assert(self.effects@ =~= forgot.effects@ + (done + forgot.pumping(now)));
        self.effects.push(Effect::ResumeDisplayLink);
        assert(self.effects@ =~= forgot.effects@ + (done + forgot.pumping(now) + seq![
            Effect::ResumeDisplayLink,
        ]));
        Ok(())
    }

    /// This is `before` without the review `earlier`.
    pub open spec fn is_rid_of(&self, before: EditorView, earlier: Option<u64>) -> bool {
        match earlier {
            Some(id) => self.forgets_review(before, id),
            None => *self == before,
        }
    }

    /// Makes the document in front a review, with nothing covering it.
    fn await_answer(&mut self, tab_name: String, path: String)
        requires
            old(self).state.wf(),
            old(self).state.claude.bridge is Some,
        ensures
            final(self).state.wf(),
            ({
                let bridge = final(self).state.claude.bridge;
                &&& bridge matches Some(new)
                &&& new.with_reviews(old(self).state.claude.bridge->0)
                &&& new.reviews@ == old(self).state.claude.bridge->0.reviews@.insert(
                    old(self).state.pane.docs.front().id,
                    Review { tab_name, path, decided: false },
                )
                &&& final(self).state == old(self).state.with_bridge(bridge).taking_over()
                &&& final(self).ivars == old(self).ivars
                &&& final(self).effects == old(self).effects
            }),
    {
        let id = self.state.pane.docs.active().id;
        if let Some(bridge) = &mut self.state.claude.bridge {
            bridge.reviews.insert(id, Review { tab_name, path, decided: false });
        }
        self.state.git.showing_diff = false;
        self.state.pane.preview = None;
        self.state.hints.completion = None;
        tabs::reveal_active_tab(&mut self.state);
    }

    /// The assistant wants the tab it calls `name` closed. Returns whether there is
    /// one, and whether closing it is being asked about.
    pub fn close_diff(&mut self, name: &str, blank: Buffer, now: u64) -> (r: (bool, bool))
        requires
            old(self).state.wf(),
            blank.wf(),
        ensures
            final(self).state.wf(),
            match review_named(old(self).state, name@) {
                Some(id) => r.0 && final(self).closes_review(*old(self), id, blank, r.1, now),
                None => !r.0 && !r.1 && *final(self) == *old(self),
            },
    {
        let id = match &self.state.claude.bridge {
            Some(bridge) => bridge.buffer_for_tab(name),
            None => None,
        };
        match id {
            Some(id) => {
                let asking = self.claude_close_review(id, blank, now);
                (true, asking)
            },
            None => (false, false),
        }
    }

    /// The tabs to close when the assistant wants all its reviews gone.
    pub fn all_reviews(&self) -> (ids: Vec<u64>)
        ensures
            match self.state.claude.bridge {
                Some(bridge) => {
                    &&& ids@.len() == bridge.reviews.rows@.len()
                    &&& forall|i: int|
                        0 <= i < ids@.len() ==> #[trigger] ids@[i] == bridge.reviews.rows@[i].0
                },
                None => ids@.len() == 0,
            },
    {
        let mut ids: Vec<u64> = Vec::new();
        if let Some(bridge) = &self.state.claude.bridge {
            let rows = &bridge.reviews.rows;
            let mut i: usize = 0;
            while i < rows.len()
                invariant
                    i <= rows@.len(),
                    ids@.len() == i,
                    forall|j: int| 0 <= j < i ==> #[trigger] ids@[j] == rows@[j].0,
                decreases rows@.len() - i,
            {
                ids.push(rows[i].0);
                i += 1;
            }
        }
        ids
    }
}

/// What the threads of the connection delivered.
pub enum BridgeEvent {
    Connected,
    /// A connection closed; whether another one is still there.
    Closed(bool),
    /// Something the assistant asks, and whether it is from the current connection.
    Asked(String, bool),
}

impl State {
    /// The state with the assistant there or not.
    pub open spec fn claude_there(self, connected: bool) -> State {
        match self.claude.bridge {
            Some(bridge) => self.with_bridge(Some(Bridge { connected, ..bridge })),
            None => self,
        }
    }
}

impl EditorView {
    /// This is `before` with something from the connection taken.
    pub open spec fn takes_bridge_event(
        &self,
        before: EditorView,
        event: BridgeEvent,
        now: u64,
    ) -> bool {
        match event {
            BridgeEvent::Connected => {
                &&& self.state.says(before.state.claude.assistant.product@ + " connected"@, now)
                &&& self.becomes(
                    before,
                    before.state.claude_there(true).saying(self.state.status.message->0),
                    seq![Effect::ResumeDisplayLink],
                )
            },
            BridgeEvent::Closed(still) => if before.state.claude.bridge is Some && !still {
                &&& self.state.says(
                    before.state.claude.assistant.product@ + " disconnected"@,
                    now,
                )
                &&& self.becomes(
                    before,
                    before.state.claude_there(false).saying(self.state.status.message->0),
                    seq![Effect::ResumeDisplayLink],
                )
            } else {
                self.becomes(before, before.state.claude_there(still), Seq::empty())
            },
            BridgeEvent::Asked(asked, current) => self.becomes(
                before,
                before.state,
                if before.state.claude.bridge is Some && current {
                    seq![Effect::AnswerClaude(asked)]
                } else {
                    Seq::empty()
                },
            ),
        }
    }

    /// Takes one thing from the connection.
    fn bridge_event(&mut self, event: BridgeEvent, now: u64)
        requires
            old(self).state.wf(),
        ensures
            final(self).state.wf(),
            final(self).takes_bridge_event(*old(self), event, now),
    {
        let there = self.state.claude.bridge.is_some();
        match event {
            BridgeEvent::Connected => {
                if let Some(bridge) = &mut self.state.claude.bridge {
                    bridge.connected = true;
                }
                let note = joined(self.state.claude.assistant.product.as_str(), " connected");
                self.claude_note(note.as_str(), now);
            },
            BridgeEvent::Closed(still) => {
                if let Some(bridge) = &mut self.state.claude.bridge {
                    bridge.connected = still;
                }
                if there && !still {
                    let note = joined(
                        self.state.claude.assistant.product.as_str(),
                        " disconnected",
                    );
                    self.claude_note(note.as_str(), now);
                } else {
                    assert(self.effects@ =~= old(self).effects@ + Seq::<Effect>::empty());
                }
            },
            BridgeEvent::Asked(asked, current) => {
                if there && current {
                    self.ask(Effect::AnswerClaude(asked));
                } else {
                    assert(self.effects@ =~= old(self).effects@ + Seq::<Effect>::empty());
                }
            },
        }
    }
}

/// Whether event `i` was taken between the views before and after it.
pub open spec fn is_bridge_step(
    steps: Seq<EditorView>,
    events: Seq<BridgeEvent>,
    i: int,
    now: u64,
) -> bool {
    steps[i + 1].takes_bridge_event(steps[i], events[i], now)
}

/// Whether `steps` are the views with `events` taken one after the other.
pub open spec fn bridge_steps(
    steps: Seq<EditorView>,
    events: Seq<BridgeEvent>,
    now: u64,
) -> bool {
    &&& steps.len() == events.len() + 1
    &&& forall|i: int| 0 <= i < events.len() ==> #[trigger] is_bridge_step(steps, events, i, now)
}

impl EditorView {
    /// Handles what the connection's threads delivered.
    pub fn poll_claude(&mut self, events: Vec<BridgeEvent>, now: u64)
        requires
            old(self).state.wf(),
        ensures
            final(self).state.wf(),
            exists|steps: Seq<EditorView>|
                {
                    &&& #[trigger] bridge_steps(steps, events@, now)
                    &&& steps[0] == *old(self)
                    &&& final(self).shows(
                        steps.last(),
                        steps.last().state,
                        Seq::empty(),
                        now,
                    )
                },
    {
        let ghost all = events@;
        let mut rest = events;
        let ghost mut steps = seq![*old(self)];
        let ghost mut i: int = 0;
        assert(all.skip(0) =~= all);
        assert(all.take(0) =~= Seq::empty());
        while rest.len() > 0
            invariant
                0 <= i <= all.len(),
                rest@ == all.skip(i),
                self.state.wf(),
                bridge_steps(steps, all.take(i), now),
                steps[0] == *old(self),
                steps.last() == *self,
            decreases rest@.len(),
        {
            let ghost so_far = steps;
            let ghost one = rest@[0];
            let event = rest.remove(0);
            self.bridge_event(event, now);
            proof {
                steps = so_far.push(*self);
                let now_taken = all.take(i + 1);
                assert(now_taken =~= all.take(i).push(one));
                assert forall|k: int| 0 <= k < i + 1 implies #[trigger] is_bridge_step(
                    steps,
                    now_taken,
                    k,
                    now,
                ) by {
                    if k < i {
                        assert(is_bridge_step(so_far, all.take(i), k, now));
                    }
                }
                assert(rest@ =~= all.skip(i + 1));
                i = i + 1;
            }
        }
        assert(all.take(i) =~= all);
        assert(bridge_steps(steps, all, now));
        self.show(now);
    }
}

/// `after` is `before` with the tabs of the reviews `ids` closed, one after
/// the other. `asking` says of each whether that is being asked about.
pub open spec fn closes_reviews(
    before: EditorView,
    after: EditorView,
    ids: Seq<u64>,
    blanks: Seq<Buffer>,
    asking: Seq<bool>,
    now: u64,
) -> bool
    decreases ids.len(),
{
    if ids.len() == 0 {
        after == before
    } else {
        exists|mid: EditorView|
            {
                &&& closes_reviews(
                    before,
                    mid,
                    ids.drop_last(),
                    blanks.drop_last(),
                    asking.drop_last(),
                    now,
                )
                &&& #[trigger] after.closes_review(
                    mid,
                    ids.last(),
                    blanks.last(),
                    asking.last(),
                    now,
                )
            }
    }
}

impl EditorView {
    /// The tabs of the reviews, oldest first.
    pub open spec fn review_tabs(&self) -> Seq<u64> {
        match self.state.claude.bridge {
            Some(bridge) => bridge.reviews.rows@.map_values(|row: (u64, Review)| row.0),
            None => Seq::empty(),
        }
    }

    /// The assistant wants the tabs of all its reviews closed. `blanks` are
    /// the documents that take the place of the last tab of a pane. Returns
    /// how many there were, and of each whether closing it is being asked
    /// about.
    pub fn close_all_diffs(&mut self, blanks: Vec<Buffer>, now: u64) -> (r: (usize, Vec<bool>))
        requires
            old(self).state.wf(),
            blanks@.len() >= old(self).review_tabs().len(),
            forall|i: int| 0 <= i < blanks@.len() ==> (#[trigger] blanks@[i]).wf(),
        ensures
            final(self).state.wf(),
            r.0 == old(self).review_tabs().len(),
            r.1@.len() == r.0,
            closes_reviews(
                *old(self),
                *final(self),
                old(self).review_tabs(),
                blanks@.take(r.0 as int),
                r.1@,
                now,
            ),
    {
        let ghost given = blanks@;
        let mut rest = blanks;
        let ids = self.all_reviews();
        assert(ids@ =~= old(self).review_tabs());
        let mut asking: Vec<bool> = Vec::new();
        let mut i: usize = 0;
        while i < ids.len()
            invariant
                i <= ids@.len(),
                ids@.len() <= given.len(),
                rest@ == given.skip(i as int),
                forall|i: int| 0 <= i < given.len() ==> (#[trigger] given[i]).wf(),
                asking@.len() == i,
                self.state.wf(),
                closes_reviews(
                    *old(self),
                    *self,
                    ids@.take(i as int),
                    given.take(i as int),
                    asking@,
                    now,
                ),
            decreases ids@.len() - i,
        {
            let ghost mid = *self;
            let ghost so_far = asking@;
            let blank = rest.remove(0);
            assert(blank == given[i as int]);
            assert(rest@ =~= given.skip(i + 1));
            let asked = self.claude_close_review(ids[i], blank, now);
            asking.push(asked);
            proof {
                assert(ids@.take(i + 1).drop_last() =~= ids@.take(i as int));
                assert(given.take(i + 1).drop_last() =~= given.take(i as int));
                assert(asking@.drop_last() =~= so_far);
                assert(self.closes_review(
                    mid,
                    ids@.take(i + 1).last(),
                    given.take(i + 1).last(),
                    asking@.last(),
                    now,
                ));
            }
            i += 1;
        }
        assert(ids@.take(i as int) =~= ids@);
        (ids.len(), asking)
    }
}

} // verus!
