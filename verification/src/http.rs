//! Requests from `.http` files and the tabs their responses open in.

use crate::buffer::Buffer;
use crate::documents::{self, Documents};
use crate::panes::{self, find_pane_with, PaneStore};
use crate::state::{EditorView, Effect, Requests, ResponseView, State, Task};
use crate::tabs::present;
use crate::text::{joined, joined3};
use vstd::prelude::*;
use vstd::string::*;

verus! {

/// Whether the document in front is one requests are written in.
pub open spec fn is_request_document(state: State) -> bool {
    state.pane.docs.front().request_file
}

/// Whether there is a request to send: a request document, or a response tab,
/// which re-sends its own request.
pub open spec fn sendable(state: State) -> bool {
    ||| state.http.responses@.contains_key(state.pane.docs.front().id)
    ||| is_request_document(state)
}

/// Whether Cmd-Return has a request to send.
pub fn can_send_from(state: &State) -> (r: bool)
    requires
        state.wf(),
    ensures
        r == sendable(*state),
{
    let front = state.pane.docs.active();
    front.request_file || state.http.responses.contains_key(&front.id)
}

/// A reply as it is shown: its text, and what it is shown as.
pub struct Shown {
    pub text: Vec<u8>,
    pub display: Option<String>,
}

/// A request that is ready to be sent: what it is called, and what its tab
/// shows until it is answered.
pub struct Pending {
    pub title: String,
    pub shown: Shown,
}

impl Shown {
    /// The extension of a tab made for it.
    pub open spec fn ending(&self) -> Seq<char> {
        match self.display {
            Some(display) => display@,
            None => "txt"@,
        }
    }
}

/// Whether `b` is `before` showing `shown`.
pub open spec fn shows_reply(b: Buffer, before: Buffer, shown: Shown) -> bool {
    &&& b.text@ == shown.text@
    &&& b == (Buffer {
        text: b.text,
        cursor: 0,
        anchor: 0,
        dirty: false,
        display: shown.display,
        ..before
    })
}

/// Whether `docs` is `before` with the response tab `title` in front: the tab
/// that already has that title, or a new one.
pub open spec fn response_placed(
    docs: Documents,
    before: Documents,
    title: Seq<char>,
    shown: Shown,
    fresh: u64,
) -> bool {
    match before.position_labelled(title) {
        Some(i) => {
            &&& docs.active == i
            &&& docs.list@ == before.list@.update(i, docs.list@[i])
            &&& shows_reply(docs.list@[i], before.list@[i], shown)
        },
        None => {
            &&& exists|made: Buffer|
                {
                    &&& #[trigger] made.is_generated(
                        fresh,
                        title,
                        shown.ending(),
                        shown.text@,
                    )
                    &&& docs.front() == (Buffer { display: shown.display, ..made })
                }
            &&& if before.at_home() {
                docs.list@ == seq![docs.front()] && docs.active == 0
            } else {
                docs.list@ == before.list@.push(docs.front()) && docs.active
                    == before.list@.len()
            }
        },
    }
}

impl Buffer {
    /// Shows a reply in this document.
    fn show_reply(&mut self, shown: Shown)
        ensures
            final(self).wf(),
            shows_reply(*final(self), *old(self), shown),
    {
        self.regenerate(shown.text);
        self.display = shown.display;
    }
}

/// Puts the response tab `title` in front.
fn place_response(docs: &mut Documents, title: &str, shown: Shown, fresh: u64)
    requires
        old(docs).wf(),
    ensures
        final(docs).wf(),
        response_placed(*final(docs), *old(docs), title@, shown, fresh),
{
    match docs.index_of_label(title) {
        Some(i) => {
            let switched = docs.switch(i);
            docs.list[i].show_reply(shown);
        },
        None => {
            let extension = match &shown.display {
                Some(display) => display.clone(),
                None => "txt".to_owned(),
            };
            let ghost reply = shown;
            let made = Buffer::generated(fresh, title.to_owned(), extension.as_str(), shown.text);
            let ghost generated = made;
            let mut b = made;
            b.display = shown.display;
            docs.push(b);
            assert(generated.is_generated(fresh, title@, reply.ending(), reply.text@));
            assert(docs.front() == b);
        },
    }
}

impl EditorView {
    /// This is `before` with the response tab in front, for a request that is
    /// called `title` and not answered yet.
    pub open spec fn shows_response(
        &self,
        before: EditorView,
        title: String,
        shown: Shown,
        fresh: u64,
    ) -> bool {
        let docs = self.state.pane.docs;
        let responses = self.state.http.responses;
        &&& response_placed(docs, before.state.pane.docs, title@, shown, fresh)
        &&& responses@ == before.state.http.responses@.insert(
            docs.front().id,
            ResponseView { title, segment: 0, answered: false },
        )
        &&& self.state == before.state.with_docs(docs).with_responses(responses).presented()
        &&& self.ivars == before.ivars
        &&& self.effects == before.effects
    }

    /// Opens the response tab titled `title`, reusing the tab that already has
    /// that title. Returns the id of its document.
    pub fn show_response(&mut self, title: String, shown: Shown, fresh: u64) -> (id: u64)
        requires
            old(self).state.wf(),
        ensures
            final(self).state.wf(),
            id == final(self).state.pane.docs.front().id,
            final(self).shows_response(*old(self), title, shown, fresh),
    {
        place_response(&mut self.state.pane.docs, title.as_str(), shown, fresh);
        let id = self.state.pane.docs.active().id;
        self.state.http.responses.insert(
            id,
            ResponseView { title, segment: 0, answered: false },
        );
        present(&mut self.state);
        id
    }

    /// This is `before` with `note` said and a redraw asked for.
    pub open spec fn remarks(&self, before: EditorView, note: Seq<char>, now: u64) -> bool {
        &&& self.state.says(note, now)
        &&& self.marks(
            before,
            before.state.saying(self.state.status.message->0),
            Seq::empty(),
        )
    }

    /// Says something and asks for a redraw.
    fn remark(&mut self, note: String, now: u64)
        ensures
            old(self).state.wf() ==> final(self).state.wf(),
            final(self).remarks(*old(self), note@, now),
    {
        self.say(note, now);
        self.request_redraw();
        assert(self.effects@ =~= old(self).effects@ + Seq::<Effect>::empty());
    }

    /// This is `opened` with its request on the way.
    pub open spec fn sends(&self, opened: EditorView, title: Seq<char>, now: u64) -> bool {
        let id = opened.state.pane.docs.front().id;
        &&& self.state.says("sending "@ + title, now)
        &&& self.shows(
            opened,
            State {
                http: Requests { in_flight: Some(id), ..opened.state.http },
                ..opened.state
            }.saying(self.state.status.message->0),
            seq![
                Effect::SendHttp(id),
                Effect::ResumeDisplayLink,
                Effect::SyncTitle,
                Effect::Run(Task::Reparse),
            ],
            now,
        )
    }

    /// Sends the request under the caret of the active `.http` document, or
    /// re-sends the request behind the active response tab: `prepared`, or why
    /// it cannot be sent.
    ///
    /// The response tab opens at once, marked as sending, and is filled in
    /// when the answer comes. Re-sending reuses the tab, so a request edited
    /// and sent ten times leaves one tab, not ten.
    pub fn send_request(&mut self, prepared: Result<Pending, String>, fresh: u64, now: u64)
        requires
            old(self).state.wf(),
        ensures
            final(self).state.wf(),
            if old(self).state.http.in_flight is Some {
                final(self).remarks(*old(self), "a request is still in flight"@, now)
            } else if !sendable(old(self).state) {
                final(self).remarks(*old(self), "Send Request works in a .http file"@, now)
            } else {
                match prepared {
                    Err(error) => final(self).remarks(*old(self), error@, now),
                    Ok(pending) => exists|opened: EditorView|
                        {
                            &&& #[trigger] opened.shows_response(
                                *old(self),
                                pending.title,
                                pending.shown,
                                fresh,
                            )
                            &&& final(self).sends(opened, pending.title@, now)
                        },
                }
            },
    {
        if self.state.http.in_flight.is_some() {
            self.remark("a request is still in flight".to_owned(), now);
            return;
        }
        if !can_send_from(&self.state) {
            self.remark("Send Request works in a .http file".to_owned(), now);
            return;
        }
        let pending = match prepared {
            Err(error) => {
                self.remark(error, now);
                return;
            },
            Ok(pending) => pending,
        };
        let note = joined("sending ", pending.title.as_str());
        let id = self.show_response(pending.title, pending.shown, fresh);
        let ghost opened = *self;
        assert(opened.shows_response(*old(self), pending.title, pending.shown, fresh));
        self.state.http.in_flight = Some(id);
        self.say(note, now);
        self.effects.push(Effect::SendHttp(id));
        self.effects.push(Effect::ResumeDisplayLink);
        self.effects.push(Effect::SyncTitle);
        self.effects.push(Effect::Run(Task::Reparse));
        let ghost done = seq![
            Effect::SendHttp(id),
            Effect::ResumeDisplayLink,
            Effect::SyncTitle,
            Effect::Run(Task::Reparse),
        ];
        assert(self.effects@ =~= opened.effects@ + done);
        self.show(now);
        assert(self.effects@ =~= opened.effects@ + (done + opened.pumping(now)));
    }
}

/// The answer to a request: how it went, and what its tab shows.
pub struct HttpReply {
    pub status: String,
    pub shown: Shown,
}

/// Whether `docs` is `before` with the reply in tab `i`.
pub open spec fn reply_in(docs: Documents, before: Documents, i: int, shown: Shown) -> bool {
    &&& docs.active == before.active
    &&& docs.list@ == before.list@.update(i, docs.list@[i])
    &&& shows_reply(docs.list@[i], before.list@[i], shown)
}

/// Whether `after` is `before` with the reply in tab `id`, in whichever pane
/// has it.
pub open spec fn reply_placed(after: State, before: State, id: u64, shown: Shown) -> bool {
    match before.pane.docs.position_with(id) {
        Some(i) => {
            &&& reply_in(after.pane.docs, before.pane.docs, i, shown)
            &&& after == before.with_docs(after.pane.docs)
        },
        None => match panes::pane_with_id(before.panes@, id) {
            Some(p) => {
                let docs = before.panes@[p].docs;
                &&& reply_in(after.panes@[p].docs, docs, docs.position_with(id)->0, shown)
                &&& after.panes@ == before.panes@.update(
                    p,
                    PaneStore { docs: after.panes@[p].docs, ..before.panes@[p] },
                )
                &&& after == (State { panes: after.panes, ..before })
            },
            None => after == before,
        },
    }
}

/// Puts the reply into tab `id`, in whichever pane has it.
fn place_reply(state: &mut State, id: u64, shown: Shown)
    requires
        old(state).wf(),
    ensures
        final(state).wf(),
        reply_placed(*final(state), *old(state), id, shown),
{
    if let Some(i) = state.pane.docs.index_with(id) {
        state.pane.docs.list[i].show_reply(shown);
        return;
    }
    if let Some((p, i)) = find_pane_with(&state.panes, id) {
        state.panes[p].docs.list[i].show_reply(shown);
    }
}

impl State {
    /// The state with no request on the way.
    pub open spec fn landed(self) -> State {
        State { http: Requests { in_flight: None, ..self.http }, ..self }
    }
}

impl EditorView {
    /// This is `before` with the answer for tab `id` in place.
    pub open spec fn takes_reply(
        &self,
        before: EditorView,
        id: u64,
        reply: HttpReply,
        now: u64,
    ) -> bool {
        let placed = State {
            pane: self.state.pane,
            panes: self.state.panes,
            ..before.state
        };
        let responses = self.state.http.responses;
        let view = before.state.http.responses@[id];
        &&& reply_placed(placed, before.state, id, reply.shown)
        &&& responses@ == before.state.http.responses@.insert(
            id,
            ResponseView { answered: true, ..view },
        )
        &&& self.state.says(view.title@ + ": "@ + reply.status@, now)
        &&& self.marks(
            before,
            placed.landed().with_responses(responses).saying(
                self.state.status.message->0,
            ),
            seq![Effect::SyncTitle, Effect::Run(Task::Reparse)],
        )
    }

    /// Takes the answer to the request on the way, when there is one, and fills
    /// its tab in, in whichever pane that is. The tab may have been closed while
    /// the request was out.
    pub fn poll_http(&mut self, reply: Option<HttpReply>, now: u64)
        requires
            old(self).state.wf(),
        ensures
            final(self).state.wf(),
            match (old(self).state.http.in_flight, reply) {
                (Some(id), Some(reply)) => if old(self).state.http.responses@.contains_key(id) {
                    final(self).takes_reply(*old(self), id, reply, now)
                } else {
                    final(self).becomes(*old(self), old(self).state.landed(), Seq::empty())
                },
                _ => *final(self) == *old(self),
            },
    {
        let id = match self.state.http.in_flight {
            Some(id) => id,
            None => {
                return;
            },
        };
        let reply = match reply {
            Some(reply) => reply,
            None => {
                return;
            },
        };
        self.state.http.in_flight = None;
        let (title, segment) = match self.state.http.responses.get(&id) {
            Some(view) => (view.title.clone(), view.segment),
            None => {
                assert(self.effects@ =~= old(self).effects@ + Seq::<Effect>::empty());
                return;
            },
        };
        let note = joined3(title.as_str(), ": ", reply.status.as_str());
        self.state.http.responses.insert(id, ResponseView { title, segment, answered: true });
        place_reply(&mut self.state, id, reply.shown);
        self.say(note, now);
        self.effects.push(Effect::SyncTitle);
        self.effects.push(Effect::Run(Task::Reparse));
        assert(self.effects@ =~= old(self).effects@ + seq![
            Effect::SyncTitle,
            Effect::Run(Task::Reparse),
        ]);
        self.request_redraw();
    }

    /// This is `before` showing part `index` of the active response.
    pub open spec fn selects_part(
        &self,
        before: EditorView,
        index: usize,
        shown: Shown,
        now: u64,
    ) -> bool {
        let front = before.state.pane.docs.front();
        let docs = self.state.pane.docs;
        let responses = self.state.http.responses;
        &&& docs.fronts(before.state.pane.docs, docs.front())
        &&& shows_reply(docs.front(), front, shown)
        &&& responses@ == before.state.http.responses@.insert(
            front.id,
            ResponseView { segment: index, ..before.state.http.responses@[front.id] },
        )
        &&& self.shows(
            before,
            before.state.with_docs(docs).with_responses(responses),
            seq![Effect::Run(Task::Reparse)],
            now,
        )
    }

    /// Shows part `index`, out of `count`, of the active response tab: `shown`.
    pub fn response_select(&mut self, index: usize, count: usize, shown: Shown, now: u64)
        requires
            old(self).state.wf(),
        ensures
            final(self).state.wf(),
            ({
                let id = old(self).state.pane.docs.front().id;
                let responses = old(self).state.http.responses@;
                if responses.contains_key(id) && index < count && responses[id].segment != index {
                    final(self).selects_part(*old(self), index, shown, now)
                } else {
                    *final(self) == *old(self)
                }
            }),
    {
        let id = self.state.pane.docs.active().id;
        let at = self.state.pane.docs.active;
        let (title, answered) = match self.state.http.responses.get(&id) {
            Some(view) => {
                if view.segment == index {
                    return;
                }
                (view.title.clone(), view.answered)
            },
            None => {
                return;
            },
        };
        if index >= count {
            return;
        }
        self.state.http.responses.insert(id, ResponseView { title, segment: index, answered });
        self.state.pane.docs.list[at].show_reply(shown);
        self.effects.push(Effect::Run(Task::Reparse));
        let ghost done = seq![Effect::Run(Task::Reparse)];
        assert(self.effects@ =~= old(self).effects@ + done);
        self.show(now);
        assert(self.effects@ =~= old(self).effects@ + (done + old(self).pumping(now)));
    }
}

/// A request sent again reuses its tab: no tab is added.
pub proof fn sending_again_reuses_the_tab(
    docs: Documents,
    before: Documents,
    title: Seq<char>,
    shown: Shown,
    fresh: u64,
)
    requires
        response_placed(docs, before, title, shown, fresh),
        before.position_labelled(title) is Some,
    ensures
        docs.list@.len() == before.list@.len(),
{
    documents::first_where_is_first(before.list@, |b: Buffer| b.is_titled(title));
}

/// The tab with the reply is still the tab `id`.
proof fn still_the_tab(docs: Documents, before: Documents, id: u64, shown: Shown)
    requires
        before.position_with(id) is Some,
        reply_in(docs, before, before.position_with(id)->0, shown),
    ensures
        docs.position_with(id) == before.position_with(id),
{
    let hit = |b: Buffer| b.id == id;
    documents::first_where_is_first(before.list@, hit);
    let i = before.position_with(id)->0;
    assert forall|j: int| 0 <= j < i implies !hit(#[trigger] docs.list@[j]) by {
        assert(!hit(before.list@[j]));
    }
    documents::first_where_unique(docs.list@, hit, i);
}

/// A reply fills its tab in, in whichever pane that is.
pub proof fn a_reply_fills_its_tab(
    before: EditorView,
    after: EditorView,
    id: u64,
    reply: HttpReply,
    now: u64,
)
    requires
        after.takes_reply(before, id, reply, now),
        panes::document(before.state, id) is Some,
    ensures
        panes::document(after.state, id) matches Some(b) && shows_reply(
            b,
            panes::document(before.state, id)->0,
            reply.shown,
        ),
{
    let old_docs = before.state.pane.docs;
    if old_docs.position_with(id) is Some {
        still_the_tab(after.state.pane.docs, old_docs, id, reply.shown);
    } else {
        let stored = before.state.panes@;
        panes::pane_with_id_is_first(stored, id);
        let p = panes::pane_with_id(stored, id)->0;
        let now_stored = after.state.panes@;
        still_the_tab(now_stored[p].docs, stored[p].docs, id, reply.shown);
        panes::pane_with_id_unique(now_stored, id, p);
        panes::pane_with_id_is_first(now_stored, id);
    }
}

} // verus!
