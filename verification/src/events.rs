//! What language servers say.

use crate::completion::{CompletionPopup, ServerItem};
use crate::servers::{self, find_server};
use crate::state::{
    EditorView, Effect, Hints, Location, Server, ServerFile, Servers, SignatureTip, State, Task,
    TextEdit,
};
use crate::suggest;
use crate::text::{chars_of, joined3, text_of_chars};
use vstd::prelude::*;
use vstd::string::*;

verus! {

/// A message from a language server.
pub enum ServerEvent {
    /// The server `key` is ready: whether it formats, and after which
    /// characters it wants to be asked for suggestions and signatures.
    Ready(u8, bool, Vec<String>, Vec<String>),
    Diagnostics,
    /// Suggestions, and the request they answer.
    Completions(Vec<ServerItem>, u64),
    Definition(Option<Location>),
    Hover(String),
    References(Vec<Location>),
    Rename(Vec<ServerFile>),
    /// The edits that format a file, and whether a save asked.
    Formatting(String, Vec<TextEdit>, bool),
    /// The signature of the call at the caret of a file, if there is one.
    Signature(String, Option<String>),
    Refused(String),
    Failed(String),
}

/// Where the first line feed of `s` is; its end when it has none.
pub open spec fn feed(s: Seq<char>) -> int
    decreases s.len(),
{
    if s.len() == 0 || s[0] == '\n' {
        0
    } else {
        1 + feed(s.drop_first())
    }
}

/// The first line of `s`, without its ending.
pub open spec fn line_of_text(s: Seq<char>) -> Seq<char> {
    let n = feed(s);
    if n < s.len() && n > 0 && s[n - 1] == '\r' {
        s.take(n - 1)
    } else {
        s.take(n)
    }
}

/// The first two lines of `s`, side by side.
pub open spec fn two_lines(s: Seq<char>) -> Seq<char> {
    let n = feed(s);
    if n + 1 < s.len() {
        line_of_text(s) + "  "@ + line_of_text(s.skip(n + 1))
    } else {
        line_of_text(s)
    }
}

/// The first line feed is within the text.
proof fn feed_is_within(s: Seq<char>)
    ensures
        0 <= feed(s) <= s.len(),
    decreases s.len(),
{
    if s.len() > 0 && s[0] != '\n' {
        feed_is_within(s.drop_first());
    }
}

/// See [`feed`]: counted from `from`.
fn find_feed(chars: &Vec<char>, from: usize) -> (at: usize)
    requires
        from <= chars@.len(),
    ensures
        from <= at <= chars@.len(),
        at - from == feed(chars@.skip(from as int)),
{
    let mut at: usize = from;
    let ghost whole = chars@.skip(from as int);
    while at < chars.len() && chars[at] != '\n'
        invariant
            whole == chars@.skip(from as int),
            from <= at <= chars@.len(),
            at - from + feed(chars@.skip(at as int)) == feed(whole),
        decreases chars@.len() - at,
    {
        assert(chars@.skip(at as int).drop_first() =~= chars@.skip(at + 1));
        at += 1;
    }
    at
}

/// The line that starts at `from`, and where it ends.
fn take_line(chars: &Vec<char>, from: usize) -> (r: (String, usize))
    requires
        from <= chars@.len(),
    ensures
        r.0@ == line_of_text(chars@.skip(from as int)),
        r.1 - from == feed(chars@.skip(from as int)),
        from <= r.1 <= chars@.len(),
{
    let end = find_feed(chars, from);
    let ghost s = chars@.skip(from as int);
    let stop = if end < chars.len() && end > from && chars[end - 1] == '\r' {
        end - 1
    } else {
        end
    };
    assert(chars@.subrange(from as int, stop as int) =~= s.take(stop - from));
    (text_of_chars(chars, from, stop), end)
}

/// See [`two_lines`].
fn hover_text(s: &str) -> (r: String)
    ensures
        r@ == two_lines(s@),
{
    let chars = chars_of(s);
    assert(chars@.skip(0) =~= s@);
    let (first, end) = take_line(&chars, 0);
    if end < chars.len() && end + 1 < chars.len() {
        let (second, _) = take_line(&chars, end + 1);
        joined3(first.as_str(), "  ", second.as_str())
    } else {
        first
    }
}

/// Whether suggestions for `request` are for the open list.
pub open spec fn answers_request(s: State, request: u64) -> bool {
    suggest::list_at_caret(s) && s.hints.completion->0.request == request
}

impl State {
    /// The state with the list offered `items` by the server.
    pub open spec fn with_items(self, items: Vec<ServerItem>) -> State {
        State {
            hints: Hints {
                completion: Some(CompletionPopup { items, ..self.hints.completion->0 }),
                ..self.hints
            },
            ..self
        }
    }

    /// The state with another signature tip.
    pub open spec fn with_signature(self, signature: Option<SignatureTip>) -> State {
        State { hints: Hints { signature, ..self.hints }, ..self }
    }
}

/// Whether `after` is `before` with server `key` ready.
pub open spec fn becomes_ready(
    after: Seq<Server>,
    before: Seq<Server>,
    event: ServerEvent,
) -> bool {
    match servers::server_at(before, event->Ready_0) {
        Some(i) => after == before.update(
            i,
            Server {
                ready: true,
                formats: event->Ready_1,
                triggers: event->Ready_2,
                signature_triggers: event->Ready_3,
                ..before[i]
            },
        ),
        None => after == before,
    }
}

impl EditorView {
    /// This is `before` with a server's message taken.
    pub open spec fn takes_event(&self, before: EditorView, event: ServerEvent, now: u64) -> bool {
        match event {
            ServerEvent::Ready(_, _, _, _) => {
                &&& becomes_ready(self.state.servers.list@, before.state.servers.list@, event)
                &&& self.becomes(
                    before,
                    State {
                        servers: Servers { list: self.state.servers.list, ..before.state.servers },
                        ..before.state
                    },
                    Seq::empty(),
                )
            },
            ServerEvent::Diagnostics => self.becomes(before, before.state, Seq::empty()),
            ServerEvent::Completions(items, request) => if answers_request(before.state, request) {
                self.becomes(before, before.state.with_items(items), seq![Effect::Rank])
            } else {
                self.becomes(before, before.state, Seq::empty())
            },
            ServerEvent::Definition(None) => self.only_says(before, "no definition found"@, now),
            ServerEvent::Definition(Some(location)) => self.becomes(
                before,
                before.state,
                seq![Effect::OpenDefinition(location)],
            ),
            ServerEvent::Hover(said) => self.only_says(before, two_lines(said@), now),
            ServerEvent::References(locations) => self.becomes(
                before,
                before.state,
                seq![Effect::ShowReferences(locations)],
            ),
            ServerEvent::Rename(files) => self.becomes(
                before,
                before.state,
                seq![Effect::ApplyRename(files)],
            ),
            ServerEvent::Formatting(place, edits, save) => self.becomes(
                before,
                before.state,
                seq![Effect::ApplyFormat(place, edits, save)],
            ),
            ServerEvent::Signature(place, label) => {
                let front = before.state.pane.docs.front();
                let tip = if front.is_at(place@) && label is Some {
                    Some(SignatureTip { buffer: front.id, anchor: front.cursor, label: label->0 })
                } else {
                    None
                };
                self.becomes(before, before.state.with_signature(tip), Seq::empty())
            },
            ServerEvent::Refused(reason) | ServerEvent::Failed(reason) => self.only_says(
                before,
                reason@,
                now,
            ),
        }
    }

    /// Takes one message of a server.
    pub fn lsp_event(&mut self, event: ServerEvent, now: u64)
        requires
            old(self).state.wf(),
        ensures
            final(self).state.wf(),
            final(self).takes_event(*old(self), event, now),
    {
        match event {
            ServerEvent::Ready(key, formats, triggers, signature_triggers) => {
                let ghost list = self.state.servers.list@;
                if let Some(i) = find_server(&self.state.servers.list, key) {
                    self.state.servers.list[i].ready = true;
                    self.state.servers.list[i].formats = formats;
                    self.state.servers.list[i].triggers = triggers;
                    self.state.servers.list[i].signature_triggers = signature_triggers;
                    assert(self.state.servers.list@ =~= list.update(
                        i as int,
                        Server {
                            ready: true,
                            formats,
                            triggers,
                            signature_triggers,
                            ..list[i as int]
                        },
                    ));
                }
                assert(self.effects@ =~= old(self).effects@ + Seq::<Effect>::empty());
            },
            ServerEvent::Diagnostics => {
                assert(self.effects@ =~= old(self).effects@ + Seq::<Effect>::empty());
            },
            ServerEvent::Completions(items, request) => {
                let id = self.state.pane.docs.active().id;
                let caret = self.state.pane.docs.active().cursor;
                if let Some(popup) = &mut self.state.hints.completion {
                    if popup.request == request && popup.buffer == id && caret >= popup.anchor {
                        popup.items = items;
                        self.ask(Effect::Rank);
                        return;
                    }
                }
                assert(self.effects@ =~= old(self).effects@ + Seq::<Effect>::empty());
            },
            ServerEvent::Definition(location) => match location {
                None => {
                    self.say("no definition found".to_owned(), now);
                    assert(self.effects@ =~= old(self).effects@ + Seq::<Effect>::empty());
                },
                Some(location) => {
                    self.ask(Effect::OpenDefinition(location));
                },
            },
            ServerEvent::Hover(said) => {
                self.say(hover_text(said.as_str()), now);
                assert(self.effects@ =~= old(self).effects@ + Seq::<Effect>::empty());
            },
            ServerEvent::References(locations) => {
                self.ask(Effect::ShowReferences(locations));
            },
            ServerEvent::Rename(files) => {
                self.ask(Effect::ApplyRename(files));
            },
            ServerEvent::Formatting(place, edits, save) => {
                self.ask(Effect::ApplyFormat(place, edits, save));
            },
            ServerEvent::Signature(place, label) => {
                let front = self.state.pane.docs.active();
                let (buffer, anchor) = (front.id, front.cursor);
                let here = front.at_path(place.as_str());
                self.state.hints.signature = match label {
                    Some(label) if here => Some(SignatureTip { buffer, anchor, label }),
                    _ => None,
                };
                assert(self.effects@ =~= old(self).effects@ + Seq::<Effect>::empty());
            },
            ServerEvent::Refused(reason) => {
                self.say(reason, now);
                assert(self.effects@ =~= old(self).effects@ + Seq::<Effect>::empty());
            },
            ServerEvent::Failed(reason) => {
                self.say(reason, now);
                assert(self.effects@ =~= old(self).effects@ + Seq::<Effect>::empty());
            },
        }
    }
}

/// Whether message `i` was taken between the views before and after it.
pub open spec fn is_event_step(
    steps: Seq<EditorView>,
    events: Seq<ServerEvent>,
    i: int,
    now: u64,
) -> bool {
    steps[i + 1].takes_event(steps[i], events[i], now)
}

/// Whether `steps` are the views with `events` taken one after the other.
pub open spec fn event_steps(
    steps: Seq<EditorView>,
    events: Seq<ServerEvent>,
    now: u64,
) -> bool {
    &&& steps.len() == events.len() + 1
    &&& forall|i: int| 0 <= i < events.len() ==> #[trigger] is_event_step(steps, events, i, now)
}

/// Whether some server got ready.
pub open spec fn any_ready(events: Seq<ServerEvent>) -> bool {
    exists|i: int| 0 <= i < events.len() && (#[trigger] events[i]) is Ready
}

impl EditorView {
    /// Takes what the servers have to say. A server that got ready hears of
    /// the open documents.
    pub fn poll_lsp(&mut self, events: Vec<ServerEvent>, now: u64)
        requires
            old(self).state.wf(),
        ensures
            final(self).state.wf(),
            exists|steps: Seq<EditorView>|
                {
                    &&& #[trigger] event_steps(steps, events@, now)
                    &&& steps[0] == *old(self)
                    &&& final(self).shows(
                        steps.last(),
                        steps.last().state,
                        if any_ready(events@) {
                            seq![Effect::Run(Task::LspSyncOpen)]
                        } else {
                            Seq::empty()
                        },
                        now,
                    )
                },
    {
        let ghost all = events@;
        let mut rest = events;
        let mut sync = false;
        let ghost mut steps = seq![*old(self)];
        let ghost mut i: int = 0;
        assert(all.skip(0) =~= all);
        assert(all.take(0) =~= Seq::empty());
        while rest.len() > 0
            invariant
                0 <= i <= all.len(),
                rest@ == all.skip(i),
                self.state.wf(),
                event_steps(steps, all.take(i), now),
                steps[0] == *old(self),
                steps.last() == *self,
                sync == any_ready(all.take(i)),
            decreases rest@.len(),
        {
            let ghost so_far = steps;
            let ghost one = rest@[0];
            let event = rest.remove(0);
            let ready = match &event {
                ServerEvent::Ready(_, _, _, _) => true,
                _ => false,
            };
            self.lsp_event(event, now);
            proof {
                steps = so_far.push(*self);
                let now_taken = all.take(i + 1);
                assert(now_taken =~= all.take(i).push(one));
                assert forall|k: int| 0 <= k < i + 1 implies #[trigger] is_event_step(
                    steps,
                    now_taken,
                    k,
                    now,
                ) by {
                    if k < i {
                        assert(is_event_step(so_far, all.take(i), k, now));
                    }
                }
                assert(any_ready(now_taken) == (any_ready(all.take(i)) || one is Ready)) by {
                    if any_ready(now_taken) {
                        let k = choose|k: int|
                            0 <= k < now_taken.len() && (#[trigger] now_taken[k]) is Ready;
                        if k < i {
                            assert(all.take(i)[k] is Ready);
                        }
                    }
                    if any_ready(all.take(i)) {
                        let k = choose|k: int| 0 <= k < i && (#[trigger] all.take(i)[k]) is Ready;
                        assert(now_taken[k] is Ready);
                    }
                    if one is Ready {
                        assert(now_taken[i] is Ready);
                    }
                }
                assert(rest@ =~= all.skip(i + 1));
                i = i + 1;
            }
            if ready {
                sync = true;
            }
        }
        let ghost last = *self;
        assert(all.take(i) =~= all);
        let ghost mut done = Seq::<Effect>::empty();
        if sync {
            self.effects.push(Effect::Run(Task::LspSyncOpen));
            proof {
                done = seq![Effect::Run(Task::LspSyncOpen)];
            }
        }
        assert(self.effects@ =~= last.effects@ + done);
        self.show(now);
        assert(self.effects@ =~= last.effects@ + (done + last.pumping(now)));
        assert(event_steps(steps, all, now));
    }
}

} // verus!
