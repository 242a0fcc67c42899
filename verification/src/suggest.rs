//! Asking for suggestions, and taking one.

use crate::buffer::{self, line_of, slice_of, Buffer};
use crate::completion::{self, completion_language, popup_key_of, project_key, Candidate,
    CompletionPopup, PopupKey, ServerItem,
};
use crate::edit::{self, any_space};
use crate::keys::{self, KeyEvent};
use crate::project::{self, after_count};
use crate::servers::{self, find_server, lsp_language};
use crate::state::{EditorView, Effect, Hints, Position, Server, SignatureTip, State, Task, Worker};
use crate::text::{self, chars_of, decimal, has_char, joined3, plural_ending, same};
use vstd::prelude::*;
use vstd::string::*;

verus! {

/// Whether the open list is about the active document and the caret is not
/// before its word.
pub open spec fn list_at_caret(s: State) -> bool {
    let front = s.pane.docs.front();
    s.hints.completion matches Some(popup) && popup.buffer == front.id && front.cursor
        >= popup.anchor
}

impl State {
    /// The state with the worker asked its next question, for the open list.
    pub open spec fn asking_worker(self) -> State {
        let generation = project::next_count(self.hints.worker.generation);
        State {
            hints: Hints {
                completion: Some(CompletionPopup { generation, ..self.hints.completion->0 }),
                worker: Worker { generation, ..self.hints.worker },
                ..self.hints
            },
            ..self
        }
    }
}

/// A worker is started unless it runs.
pub open spec fn starting_worker(s: State) -> Seq<Effect> {
    if s.hints.worker.running {
        Seq::empty()
    } else {
        seq![Effect::StartCompleter]
    }
}

impl EditorView {
    /// This is `before` with the worker asked about the open list.
    pub open spec fn asks_worker(&self, before: EditorView) -> bool {
        let start = starting_worker(before.state);
        if list_at_caret(before.state) {
            let generation = project::next_count(before.state.hints.worker.generation);
            self.becomes(
                before,
                before.state.asking_worker(),
                start + seq![Effect::AskWorker(generation)],
            )
        } else {
            self.becomes(before, before.state, start)
        }
    }

    /// Asks for a worker, unless one runs.
    fn start_completer(&mut self)
        ensures
            final(self).becomes(*old(self), old(self).state, starting_worker(old(self).state)),
    {
        if self.state.hints.worker.running {
            assert(self.effects@ =~= old(self).effects@ + Seq::<Effect>::empty());
        } else {
            self.ask(Effect::StartCompleter);
        }
    }

    /// The worker runs, or could not be started.
    pub fn completer_started(&mut self, running: bool)
        ensures
            old(self).state.wf() ==> final(self).state.wf(),
            final(self).ivars == old(self).ivars,
            final(self).effects == old(self).effects,
            final(self).state == (State {
                hints: Hints {
                    worker: Worker { running, ..old(self).state.hints.worker },
                    ..old(self).state.hints
                },
                ..old(self).state
            }),
    {
        self.state.hints.worker.running = running;
    }

    /// Sends the worker the current question for the open list.
    pub fn ask_worker(&mut self)
        requires
            old(self).state.wf(),
        ensures
            final(self).state.wf(),
            final(self).asks_worker(*old(self)),
    {
        self.start_completer();
        let id = self.state.pane.docs.active().id;
        let caret = self.state.pane.docs.active().cursor;
        let at_caret = match &self.state.hints.completion {
            Some(popup) => popup.buffer == id && caret >= popup.anchor,
            None => false,
        };
        if !at_caret {
            return;
        }
        let generation = after_count(self.state.hints.worker.generation);
        self.state.hints.worker.generation = generation;
        if let Some(popup) = &mut self.state.hints.completion {
            popup.generation = generation;
        }
        self.effects.push(Effect::AskWorker(generation));
        assert(self.effects@ =~= old(self).effects@ + (starting_worker(old(self).state) + seq![
            Effect::AskWorker(generation),
        ]));
    }
}

/// Whether the signature tip still belongs to where the caret is: in the same
/// document, not before the call, on its line.
pub open spec fn tip_stays(tip: SignatureTip, front: Buffer) -> bool {
    &&& tip.buffer == front.id
    &&& front.cursor >= tip.anchor
    &&& buffer::line_at(front.text@, front.cursor as int) == buffer::line_at(
        front.text@,
        front.within(tip.anchor) as int,
    )
}

impl State {
    /// The state without a signature tip that the caret has left.
    pub open spec fn tip_checked(self) -> State {
        match self.hints.signature {
            Some(tip) => if tip_stays(tip, self.pane.docs.front()) {
                self
            } else {
                State { hints: Hints { signature: None, ..self.hints }, ..self }
            },
            None => self,
        }
    }
}

impl EditorView {
    /// Drops a signature tip that the caret has left.
    fn check_tip(&mut self)
        requires
            old(self).state.wf(),
        ensures
            final(self).state.wf(),
            final(self).state == old(self).state.tip_checked(),
            final(self).ivars == old(self).ivars,
            final(self).effects == old(self).effects,
    {
        let stays = match &self.state.hints.signature {
            None => true,
            Some(tip) => {
                let front = self.state.pane.docs.active();
                let anchor = if tip.anchor <= front.text.len() {
                    tip.anchor
                } else {
                    front.text.len()
                };
                tip.buffer == front.id && front.cursor >= tip.anchor && line_of(
                    &front.text,
                    front.cursor,
                ) == line_of(&front.text, anchor)
            },
        };
        if !stays {
            self.state.hints.signature = None;
        }
    }

    /// This is `before` with its list kept honest about the caret, and ranked
    /// again if it stays.
    pub open spec fn checks_list(&self, before: EditorView) -> bool {
        let stays = edit::list_stays_for_key(before.state);
        self.becomes(
            before,
            before.state.list_if(stays),
            if stays {
                seq![Effect::Rank]
            } else {
                Seq::empty()
            },
        )
    }

    /// Keeps the list honest about the caret. Returns whether it stays.
    fn check_list(&mut self) -> (stays: bool)
        requires
            old(self).state.wf(),
        ensures
            final(self).state.wf(),
            stays == edit::list_stays_for_key(old(self).state),
            final(self).checks_list(*old(self)),
    {
        let stays = match self.completion_prefix() {
            Some(prefix) => !any_space(prefix.as_str()) && !has_char(prefix.as_str(), '/'),
            None => false,
        };
        if stays {
            self.ask(Effect::Rank);
        } else {
            self.state.hints.completion = None;
            assert(self.effects@ =~= old(self).effects@ + Seq::<Effect>::empty());
        }
        stays
    }

    /// This is `before` with the signature tip checked and, if it was edited,
    /// the document stamped for its server.
    pub open spec fn notes_key(&self, before: EditorView, edited: bool, now: u64) -> bool {
        let front = before.state.pane.docs.front();
        let dirty = self.state.servers.dirty;
        &&& if edited {
            edit::stamps_front(dirty, before.state.servers.dirty, front, now)
        } else {
            dirty == before.state.servers.dirty
        }
        &&& self.becomes(
            before,
            before.state.tip_checked().with_server_stamps(dirty),
            Seq::empty(),
        )
    }

    /// This is `before` after a key reached the document.
    pub open spec fn follows_key(&self, before: EditorView, edited: bool, now: u64) -> bool {
        exists|noted: EditorView, listed: EditorView, asked: EditorView|
            {
                &&& #[trigger] noted.notes_key(before, edited, now)
                &&& #[trigger] listed.checks_list(noted)
                &&& #[trigger] asked.resumes_if(*self, edited)
                &&& if edited && edit::list_stays_for_key(noted.state) {
                    asked.asks_worker(listed)
                } else {
                    asked == listed
                }
            }
    }

    /// After any key reached the document: remember the edit for the server,
    /// and keep the completion list honest about the caret.
    ///
    /// A shorter prefix can match more than the worker was asked about, so it
    /// is asked again.
    pub fn lsp_after_key(&mut self, edited: bool, now: u64)
        requires
            old(self).state.wf(),
        ensures
            final(self).state.wf(),
            final(self).follows_key(*old(self), edited, now),
    {
        self.check_tip();
        if edited && self.state.pane.docs.active().path.is_some() {
            let id = self.state.pane.docs.active().id;
            self.state.servers.dirty.insert(id, now);
        }
        let ghost noted = *self;
        assert(noted.effects@ =~= old(self).effects@ + Seq::<Effect>::empty());
        assert(noted.notes_key(*old(self), edited, now));
        let stays = self.check_list();
        let ghost listed = *self;
        assert(listed.checks_list(noted));
        if edited && stays {
            self.ask_worker();
        }
        let ghost asked = *self;
        if edited {
            self.ask(Effect::ResumeDisplayLink);
        }
        assert(asked.resumes_if(*self, edited));
    }

    /// `after` is this with the display link resumed, if `edited`.
    pub open spec fn resumes_if(&self, after: EditorView, edited: bool) -> bool {
        if edited {
            after.becomes(*self, self.state, seq![Effect::ResumeDisplayLink])
        } else {
            after == *self
        }
    }
}

/// Whether the server of `b` is ready.
pub open spec fn ready_server(list: Seq<Server>, b: Buffer) -> Option<int> {
    match servers::language_of(b) {
        Some(language) => match servers::server_at(list, language.server) {
            Some(i) => if list[i].ready {
                Some(i)
            } else {
                None
            },
            None => None,
        },
        None => None,
    }
}

/// See [`ready_server`].
pub fn lsp_server_for(list: &Vec<Server>, b: &Buffer) -> (at: Option<usize>)
    ensures
        match (at, ready_server(list@, *b)) {
            (Some(i), Some(j)) => i == j && i < list@.len(),
            (None, None) => true,
            _ => false,
        },
{
    match lsp_language(b) {
        Some(language) => match find_server(list, language.server) {
            Some(i) => if list[i].ready {
                Some(i)
            } else {
                None
            },
            None => None,
        },
        None => None,
    }
}

/// Whether `list` has the text `wanted`.
pub open spec fn has_text(list: Seq<String>, wanted: Seq<char>) -> bool {
    exists|i: int| 0 <= i < list.len() && (#[trigger] list[i])@ == wanted
}

/// See [`has_text`].
fn contains_text(list: &Vec<String>, wanted: &str) -> (r: bool)
    ensures
        r == has_text(list@, wanted@),
{
    let mut i: usize = 0;
    while i < list.len()
        invariant
            i <= list@.len(),
            forall|j: int| 0 <= j < i ==> (#[trigger] list@[j])@ != wanted@,
        decreases list@.len() - i,
    {
        if same(list[i].as_str(), wanted) {
            return true;
        }
        i += 1;
    }
    false
}

/// Whether the server of the active document wants to hear of `typed`.
pub open spec fn triggers(s: State, typed: Seq<char>) -> bool {
    ready_server(s.servers.list@, s.pane.docs.front()) matches Some(i) && has_text(
        s.servers.list@[i].triggers@,
        typed,
    )
}

/// Whether it has a signature to show after `typed`.
pub open spec fn triggers_signature(s: State, typed: Seq<char>) -> bool {
    ready_server(s.servers.list@, s.pane.docs.front()) matches Some(i) && has_text(
        s.servers.list@[i].signature_triggers@,
        typed,
    )
}

impl EditorView {
    /// After text was typed into the document: ask for completions when the
    /// character is part of a word, one the server asked to hear, or the text
    /// before the caret has become a path.
    pub fn lsp_typed(&mut self, typed: &str, word: bool, in_path: bool)
        requires
            old(self).state.wf(),
        ensures
            final(self).state.wf(),
            typed@.len() != 1 ==> *final(self) == *old(self),
            typed@.len() == 1 ==> {
                let signature = triggers_signature(old(self).state, typed@);
                let wanted = word || in_path || triggers(old(self).state, typed@);
                let closed = State {
                    hints: Hints {
                        signature: if !signature && typed@[0] == ')' {
                            None
                        } else {
                            old(self).state.hints.signature
                        },
                        ..old(self).state.hints
                    },
                    ..old(self).state
                };
                final(self).becomes(
                    *old(self),
                    closed.list_if(wanted),
                    (if signature {
                        seq![Effect::Run(Task::RequestSignature)]
                    } else {
                        Seq::empty()
                    }) + (if wanted {
                        seq![Effect::Run(Task::RequestCompletion(false))]
                    } else {
                        Seq::empty()
                    }),
                )
            },
    {
        let chars = chars_of(typed);
        if chars.len() != 1 {
            return;
        }
        let (trigger, signature) = match lsp_server_for(
            &self.state.servers.list,
            self.state.pane.docs.active(),
        ) {
            Some(i) => (
                contains_text(&self.state.servers.list[i].triggers, typed),
                contains_text(&self.state.servers.list[i].signature_triggers, typed),
            ),
            None => (false, false),
        };
        let ghost mut done = Seq::<Effect>::empty();
        if signature {
            self.effects.push(Effect::Run(Task::RequestSignature));
            proof {
                done = seq![Effect::Run(Task::RequestSignature)];
            }
        } else if chars[0] == ')' {
            self.state.hints.signature = None;
        }
        assert(self.effects@ =~= old(self).effects@ + done);
        if word || trigger || in_path {
            self.effects.push(Effect::Run(Task::RequestCompletion(false)));
            assert(self.effects@ =~= old(self).effects@ + (done + seq![
                Effect::Run(Task::RequestCompletion(false)),
            ]));
        } else {
            self.state.hints.completion = None;
            assert(self.effects@ =~= old(self).effects@ + (done + Seq::<Effect>::empty()));
        }
    }
}

/// What stands before the caret, as completion sees it.
pub struct BeforeCaret {
    /// How long the path segment is that is being typed, when it is a path.
    pub partial: Option<usize>,
    /// How long the word is.
    pub word: usize,
    /// What the history is keyed on.
    pub context: String,
}

impl BeforeCaret {
    /// How much is typed of what is being completed.
    pub open spec fn typed(&self) -> usize {
        match self.partial {
            Some(n) => n,
            None => self.word,
        }
    }
}

/// The number of the server request for suggestions: none for a path, and
/// none without a server that knows the file.
pub open spec fn request_number(s: State, before: BeforeCaret, request: u64) -> u64 {
    if before.partial is None && servers::speaks(s.servers.list@, s.pane.docs.front()) {
        request
    } else {
        0
    }
}

/// Whether a list of its own is worth it: a word needs two letters, a path or
/// a request by hand needs none.
pub open spec fn worth_a_list(s: State, before: BeforeCaret, manual: bool) -> bool {
    let front = s.pane.docs.front();
    manual || before.partial is Some || text::readable(
        front.text@.subrange(front.cursor - before.typed(), front.cursor as int),
    ).len() >= 2
}

/// Whether the list `p` is about the same word or path segment.
pub open spec fn goes_on(p: CompletionPopup, id: u64, anchor: int, path: bool) -> bool {
    p.buffer == id && p.anchor == anchor && p.path == path
}

/// Whether `popup` is the list opened in state `s`: it goes on with what the
/// list of the same word had.
pub open spec fn is_new_list(
    popup: CompletionPopup,
    s: State,
    before: BeforeCaret,
    request: u64,
) -> bool {
    let front = s.pane.docs.front();
    let anchor = front.cursor - before.typed();
    let path = before.partial is Some;
    &&& popup.buffer == front.id
    &&& popup.anchor == anchor
    &&& popup.request == request
    &&& popup.generation == 0
    &&& popup.shown@.len() == 0
    &&& popup.path == path
    &&& popup.context == before.context
    &&& popup.language@ == completion::language_key(front)
    &&& if s.hints.completion is Some && goes_on(
        s.hints.completion->0,
        front.id,
        anchor,
        path,
    ) {
        let p = s.hints.completion->0;
        &&& popup.items == p.items
        &&& popup.local == p.local
        &&& popup.boosts == p.boosts
        &&& popup.selected == p.selected
        &&& popup.chosen == p.chosen
    } else {
        &&& popup.items@.len() == 0
        &&& popup.local@.len() == 0
        &&& popup.boosts@.len() == 0
        &&& popup.selected == 0
        &&& !popup.chosen
    }
}

impl EditorView {
    /// This is `flushed` with the server asked, if there is one, and the list
    /// opened, if it is worth it.
    pub open spec fn opens_list(
        &self,
        flushed: EditorView,
        before: BeforeCaret,
        manual: bool,
        at: Position,
        request: u64,
    ) -> bool {
        let s = flushed.state;
        let front = s.pane.docs.front();
        let number = request_number(s, before, request);
        let sent = if before.partial is None && servers::speaks(s.servers.list@, front) {
            seq![Effect::Completion(front.path->0, at)]
        } else {
            Seq::empty()
        };
        if number == 0 && !worth_a_list(s, before, manual) {
            self.becomes(flushed, s.without_popup(), sent)
        } else {
            &&& self.state.hints.completion matches Some(popup)
            &&& is_new_list(popup, s, before, number)
            &&& self.becomes(
                flushed,
                State { hints: Hints { completion: Some(popup), ..s.hints }, ..s },
                sent + seq![Effect::Rank],
            )
        }
    }

    /// Asks the server and opens the list; see [`EditorView::opens_list`].
    /// Returns whether it was worth it.
    fn open_list(&mut self, before: BeforeCaret, manual: bool, at: Position, request: u64) -> (
    worth: bool)
        requires
            old(self).state.wf(),
            before.typed() <= old(self).state.pane.docs.front().cursor,
        ensures
            final(self).state.wf(),
            final(self).opens_list(*old(self), before, manual, at, request),
            worth == worth_a_list(old(self).state, before, manual),
    {
        let front = self.state.pane.docs.active();
        let id = front.id;
        let caret = front.cursor;
        let path = before.partial.is_some();
        let anchor = match before.partial {
            Some(n) => caret - n,
            None => caret - before.word,
        };
        let prefix = text::read(&slice_of(&front.text, anchor, caret));
        let worth = manual || path || chars_of(prefix.as_str()).len() >= 2;
        let language = completion_language(front);
        let mut number: u64 = 0;
        let ghost mut sent = Seq::<Effect>::empty();
        if !path && servers::speaking_server(
            &self.state.servers.list,
            self.state.pane.docs.active(),
        ).is_some() {
            number = request;
            if let Some(place) = &self.state.pane.docs.active().path {
                let place = place.clone();
                self.effects.push(Effect::Completion(place, at));
                proof {
                    sent = seq![Effect::Completion(place, at)];
                }
            }
        }
        assert(self.effects@ =~= old(self).effects@ + sent);
        if number == 0 && !worth {
            self.state.hints.completion = None;
            return worth;
        }
        let mut popup = CompletionPopup {
            buffer: id,
            anchor,
            request: number,
            generation: 0,
            items: Vec::new(),
            local: Vec::new(),
            boosts: Vec::new(),
            shown: Vec::new(),
            selected: 0,
            chosen: false,
            path,
            context: before.context,
            language,
        };
        if let Some(p) = self.state.hints.completion.take() {
            if p.buffer == id && p.anchor == anchor && p.path == path {
                popup.items = p.items;
                popup.local = p.local;
                popup.boosts = p.boosts;
                popup.selected = p.selected;
                popup.chosen = p.chosen;
            }
        }
        self.state.hints.completion = Some(popup);
        self.effects.push(Effect::Rank);
        assert(self.effects@ =~= old(self).effects@ + (sent + seq![Effect::Rank]));
        worth
    }

    /// Asks for completions at the caret: the server when the file has one,
    /// and the worker for words, the project index, paths and history.
    /// `manual` asks even when nothing has been typed yet. `request` is the
    /// number the server's request gets.
    ///
    /// Whatever was typed goes to the server first, so it answers about the
    /// text as it is now.
    pub fn request_completion(
        &mut self,
        manual: bool,
        before: BeforeCaret,
        at: Position,
        request: u64,
        now: u64,
    )
        requires
            old(self).state.wf(),
            before.typed() <= old(self).state.pane.docs.front().cursor,
        ensures
            final(self).state.wf(),
            exists|flushed: EditorView, listed: EditorView|
                {
                    &&& #[trigger] flushed.flushes(*old(self), 0, now)
                    &&& #[trigger] listed.opens_list(flushed, before, manual, at, request)
                    &&& if worth_a_list(flushed.state, before, manual) {
                        final(self).asks_worker(listed)
                    } else {
                        *final(self) == listed
                    }
                },
    {
        self.lsp_flush_now(now);
        let ghost flushed = *self;
        assert(flushed.flushes(*old(self), 0, now));
        let worth = self.open_list(before, manual, at, request);
        let ghost listed = *self;
        assert(listed.opens_list(flushed, before, manual, at, request));
        if worth {
            self.ask_worker();
        }
    }
}

/// What the worker found.
pub struct WorkerAnswer {
    pub generation: u64,
    pub candidates: Vec<Candidate>,
    pub boosts: Vec<completion::Boost>,
}

/// What is said when remembered suggestions were forgotten.
pub open spec fn forgot_note(rows: usize) -> Seq<char> {
    "forgot "@ + text::decimal_digits(rows as nat) + (" remembered completion"@ + text::plural(
        rows as int,
    ) + " for this project"@)
}

/// Whether the answer is to the question of the open list.
pub open spec fn answers_list(s: State, generation: u64) -> bool {
    list_at_caret(s) && s.hints.completion->0.generation == generation
}

impl EditorView {
    /// This is `before` with it said how much was forgotten, if something was.
    pub open spec fn says_forgotten(
        &self,
        before: EditorView,
        forgotten: Option<usize>,
        now: u64,
    ) -> bool {
        match forgotten {
            Some(rows) => {
                &&& self.state.says(forgot_note(rows), now)
                &&& self.becomes(
                    before,
                    before.state.saying(self.state.status.message->0),
                    Seq::empty(),
                )
            },
            None => *self == before,
        }
    }

    /// The worker has answered: with what was forgotten, with suggestions, or
    /// with neither. An answer to an older question is dropped.
    pub fn poll_completion(
        &mut self,
        forgotten: Option<usize>,
        answer: Option<WorkerAnswer>,
        now: u64,
    )
        requires
            old(self).state.wf(),
        ensures
            final(self).state.wf(),
            exists|told: EditorView|
                {
                    &&& #[trigger] told.says_forgotten(*old(self), forgotten, now)
                    &&& match answer {
                        Some(answer) => if answers_list(told.state, answer.generation) {
                            final(self).shows(
                                told,
                                State {
                                    hints: Hints {
                                        completion: Some(
                                            CompletionPopup {
                                                local: answer.candidates,
                                                boosts: answer.boosts,
                                                ..told.state.hints.completion->0
                                            },
                                        ),
                                        ..told.state.hints
                                    },
                                    ..told.state
                                },
                                seq![Effect::Rank],
                                now,
                            )
                        } else {
                            final(self).shows(told, told.state, Seq::empty(), now)
                        },
                        None => final(self).shows(told, told.state, Seq::empty(), now),
                    }
                },
    {
        if let Some(rows) = forgotten {
            let what = joined3(
                " remembered completion",
                plural_ending(rows),
                " for this project",
            );
            let note = joined3("forgot ", decimal(rows).as_str(), what.as_str());
            self.say(note, now);
            assert(self.effects@ =~= old(self).effects@ + Seq::<Effect>::empty());
        }
        let ghost told = *self;
        assert(told.says_forgotten(*old(self), forgotten, now));
        let id = self.state.pane.docs.active().id;
        let caret = self.state.pane.docs.active().cursor;
        if let Some(answer) = answer {
            if let Some(popup) = &mut self.state.hints.completion {
                if popup.buffer == id && popup.generation == answer.generation && caret
                    >= popup.anchor {
                    popup.local = answer.candidates;
                    popup.boosts = answer.boosts;
                    self.effects.push(Effect::Rank);
                    assert(self.effects@ =~= told.effects@ + seq![Effect::Rank]);
                    self.show(now);
                    assert(self.effects@ =~= told.effects@ + (seq![Effect::Rank] + told.pumping(
                        now,
                    )));
                    return;
                }
            }
        }
        self.show(now);
    }

    /// Edit > Forget Completion History: this project's remembered picks.
    pub fn forget_completion_history(&mut self)
        requires
            old(self).state.wf(),
        ensures
            final(self).state.wf(),
            match completion::key_of(old(self).state) {
                None => final(self).becomes(
                    *old(self),
                    old(self).state,
                    starting_worker(old(self).state),
                ),
                Some(key) => exists|root: String|
                    {
                        &&& root@ == key
                        &&& #[trigger] final(self).forgets(*old(self), root)
                    },
            },
    {
        self.start_completer();
        if let Some(root) = project_key(&self.state) {
            let ghost named = root;
            self.effects.push(Effect::ForgetHistory(root));
            assert(self.effects@ =~= old(self).effects@ + (starting_worker(old(self).state)
                + seq![Effect::ForgetHistory(named)]));
            assert(self.forgets(*old(self), named));
        }
    }

    /// This is `before` with the history of `root` being forgotten.
    pub open spec fn forgets(&self, before: EditorView, root: String) -> bool {
        self.becomes(
            before,
            before.state,
            starting_worker(before.state) + seq![Effect::ForgetHistory(root)],
        )
    }
}

/// Which suggestion is taken: the one asked for, or the picked one.
pub open spec fn taken(popup: CompletionPopup, index: Option<usize>) -> usize {
    match index {
        Some(i) => i,
        None => popup.selected,
    }
}

/// The server's item behind the suggestion, when it is the server's.
pub open spec fn server_item(popup: CompletionPopup, c: Candidate) -> Option<ServerItem> {
    match c.server {
        Some(i) => if i < popup.items@.len() {
            Some(popup.items@[i as int])
        } else {
            None
        },
        None => None,
    }
}

/// What is put in when suggestion `c` is taken.
pub open spec fn put_of(popup: CompletionPopup, c: Candidate) -> Seq<u8> {
    vstd::utf8::encode_utf8(
        match server_item(popup, c) {
            Some(item) => item.text@,
            None => c.insert@,
        },
    )
}

/// What suggestion `c` replaces in `front`: the prefix, or what the server
/// says, as far as that is in the text.
pub open spec fn replaced_by(
    popup: CompletionPopup,
    c: Candidate,
    front: Buffer,
    range: (usize, usize),
) -> (usize, usize) {
    let (from, to) = match server_item(popup, c) {
        Some(_) => (front.within(range.0), front.within(range.1)),
        None => (front.within(popup.anchor), front.cursor),
    };
    if from <= to {
        (from, to)
    } else {
        (to, from)
    }
}

/// Whether there is room in memory for the document with any suggestion of the
/// open list in it.
pub open spec fn room_for_any(s: State) -> bool {
    s.hints.completion matches Some(popup) ==> forall|i: int|
        0 <= i < popup.shown@.len() ==> s.pane.docs.front().text@.len() + put_of(
            popup,
            #[trigger] popup.shown@[i],
        ).len() <= usize::MAX
}

impl EditorView {
    /// This is `before` with `c` taken from its list, `memo` being remembered.
    pub open spec fn takes_suggestion(
        &self,
        before: EditorView,
        c: Candidate,
        range: (usize, usize),
        memo: Seq<Effect>,
    ) -> bool {
        let popup = before.state.hints.completion->0;
        let front = before.state.pane.docs.front();
        let docs = self.state.pane.docs;
        &&& docs.fronts(before.state.pane.docs, docs.front())
        &&& docs.front().splices(
            front,
            replaced_by(popup, c, front, range).0,
            replaced_by(popup, c, front, range).1,
            put_of(popup, c),
        )
        &&& self.becomes(
            before,
            before.state.without_popup().with_docs(docs),
            seq![Effect::Run(Task::AfterFocusedEdit(crate::state::Focus::Document))] + memo + (
            if popup.path && completion::ends_in_slash(c.insert@) {
                seq![Effect::Run(Task::RequestCompletion(false))]
            } else {
                Seq::empty()
            }),
        )
    }

    /// Puts suggestion `c` into the document in front.
    fn put_suggestion(&mut self, popup: &CompletionPopup, c: &Candidate, range: (usize, usize))
        requires
            old(self).state.wf(),
            old(self).state.pane.docs.front().text@.len() + put_of(*popup, *c).len() <= usize::MAX,
        ensures
            final(self).state.wf(),
            ({
                let front = old(self).state.pane.docs.front();
                let docs = final(self).state.pane.docs;
                &&& docs.fronts(old(self).state.pane.docs, docs.front())
                &&& docs.front().splices(
                    front,
                    replaced_by(*popup, *c, front, range).0,
                    replaced_by(*popup, *c, front, range).1,
                    put_of(*popup, *c),
                )
                &&& final(self).state == old(self).state.with_docs(docs)
            }),
            final(self).ivars == old(self).ivars,
            final(self).effects == old(self).effects,
    {
        let front = self.state.pane.docs.active();
        let count = front.text.len();
        let caret = front.cursor;
        let (first, second, put) = match c.server {
            Some(k) if k < popup.items.len() => (range.0, range.1, popup.items[k].text.as_str()),
            _ => (popup.anchor, caret, c.insert.as_str()),
        };
        let from = if first <= count {
            first
        } else {
            count
        };
        let to = if second <= count {
            second
        } else {
            count
        };
        let (start, end) = if from <= to {
            (from, to)
        } else {
            (to, from)
        };
        let with = put.as_bytes_vec();
        self.state.pane.docs.splice_in_front(start, end, &with);
    }

    /// Replaces the prefix with the chosen suggestion (`index`, or the picked
    /// one), remembers the choice, and in a path goes on into a folder that
    /// was just completed. `range` is what the server's suggestion replaces. A
    /// read-only document is not changed.
    pub fn accept_completion(&mut self, index: Option<usize>, range: (usize, usize))
        requires
            old(self).state.wf(),
            room_for_any(old(self).state),
        ensures
            final(self).state.wf(),
            match old(self).state.hints.completion {
                None => *final(self) == *old(self),
                Some(popup) => {
                    let i = taken(popup, index);
                    if i >= popup.shown@.len() {
                        final(self).becomes(
                            *old(self),
                            old(self).state.without_popup(),
                            Seq::empty(),
                        )
                    } else {
                        let c = popup.shown@[i as int];
                        let key = completion::key_of(old(self).state);
                        if key is Some && old(self).state.hints.worker.running {
                            exists|root: String|
                                {
                                    &&& root@ == key->0
                                    &&& final(self).takes_suggestion(
                                        *old(self),
                                        c,
                                        range,
                                        #[trigger] memo_of(popup, c, root),
                                    )
                                }
                        } else {
                            final(self).takes_suggestion(*old(self), c, range, Seq::empty())
                        }
                    }
                },
            },
    {
        let popup = match self.state.hints.completion.take() {
            None => {
                return;
            },
            Some(popup) => popup,
        };
        let ghost list = popup;
        let i = match index {
            Some(i) => i,
            None => popup.selected,
        };
        if i >= popup.shown.len() {
            assert(self.effects@ =~= old(self).effects@ + Seq::<Effect>::empty());
            return;
        }
        let c = &popup.shown[i];
        let ghost candidate = *c;
        assert(old(self).state.pane.docs.front().text@.len() + put_of(list, candidate).len()
            <= usize::MAX);
        let into_folder = popup.path && completion::slash_ends(c.insert.as_str());
        let key = project_key(&self.state);
        self.put_suggestion(&popup, c, range);
        self.effects.push(Effect::Run(Task::AfterFocusedEdit(crate::state::Focus::Document)));
        let ghost done = seq![
            Effect::Run(Task::AfterFocusedEdit(crate::state::Focus::Document)),
        ];
        assert(self.effects@ =~= old(self).effects@ + done);
        let ghost mut memo = Seq::<Effect>::empty();
        if self.state.hints.worker.running {
            if let Some(root) = key {
                let text = c.insert.clone();
                proof {
                    memo = memo_of(list, candidate, root);
                }
                self.effects.push(
                    Effect::RememberChoice(root, popup.language, popup.context, text),
                );
            }
        }
        assert(self.effects@ =~= old(self).effects@ + (done + memo));
        if into_folder {
            self.effects.push(Effect::Run(Task::RequestCompletion(false)));
            assert(self.effects@ =~= old(self).effects@ + (done + memo + seq![
                Effect::Run(Task::RequestCompletion(false)),
            ]));
        } else {
            assert(self.effects@ =~= old(self).effects@ + (done + memo + Seq::<Effect>::empty()));
        }
        assert(self.takes_suggestion(*old(self), candidate, range, memo));
    }
}

/// A server's suggestion stands in place of the range the server gave, which
/// is gone, and the caret is right after it; any other stands in place of what
/// was typed of it, from where its word began to the caret. The list closes,
/// and no other document changes. A read-only one does not either.
pub proof fn a_suggestion_replaces_what_was_typed(
    after: EditorView,
    before: EditorView,
    popup: CompletionPopup,
    c: Candidate,
    range: (usize, usize),
    memo: Seq<Effect>,
)
    requires
        before.state.wf(),
        before.state.hints.completion == Some(popup),
        after.takes_suggestion(before, c, range, memo),
        before.state.pane.docs.front().text@.len() + put_of(popup, c).len() <= usize::MAX,
    ensures
        after.state.hints.completion is None,
        after.state.pane.docs.active == before.state.pane.docs.active,
        after.state.pane.docs.list@.len() == before.state.pane.docs.list@.len(),
        forall|i: int|
            0 <= i < before.state.pane.docs.list@.len() && i != before.state.pane.docs.active
                ==> after.state.pane.docs.list@[i] == #[trigger] before.state.pane.docs.list@[i],
        ({
            let was = before.state.pane.docs.list@[before.state.pane.docs.active as int];
            let is = after.state.pane.docs.list@[before.state.pane.docs.active as int];
            let text = was.text@;
            let words = match c.server {
                Some(k) if k < popup.items@.len() => popup.items@[k as int].text@,
                _ => c.insert@,
            };
            let put = vstd::utf8::encode_utf8(words);
            &&& was.read_only ==> is == was
            &&& !was.read_only && (c.server matches Some(k) && k < popup.items@.len()) && range.0
                <= range.1 <= text.len() ==> {
                &&& is.text@ == text.take(range.0 as int) + put + text.skip(range.1 as int)
                &&& is.cursor == range.0 + put.len()
                &&& is.anchor == range.0 + put.len()
                &&& is.dirty
            }
            &&& !was.read_only && !(c.server matches Some(k) && k < popup.items@.len())
                && popup.anchor <= was.cursor ==> {
                &&& is.text@ == text.take(popup.anchor as int) + put + text.skip(was.cursor as int)
                &&& is.cursor == popup.anchor + put.len()
                &&& is.anchor == popup.anchor + put.len()
                &&& is.dirty
            }
        }),
        exists|e: int|
            before.effects@.len() <= e < after.effects@.len() && #[trigger] after.effects@[e]
                == Effect::Run(Task::AfterFocusedEdit(crate::state::Focus::Document)),
{
    let was = before.state.pane.docs.front();
    let is = after.state.pane.docs.front();
    assert(after.state.pane.docs.list@[before.state.pane.docs.active as int] == is);
    let (start, end) = replaced_by(popup, c, was, range);
    buffer::a_splice_replaces_its_range(is, was, start, end, put_of(popup, c));
    assert(after.effects@[before.effects@.len() as int] == Effect::Run(
        Task::AfterFocusedEdit(crate::state::Focus::Document),
    ));
}

/// What is remembered of taking `c`.
pub open spec fn memo_of(popup: CompletionPopup, c: Candidate, root: String) -> Seq<Effect> {
    seq![Effect::RememberChoice(root, popup.language, popup.context, c.insert)]
}

/// The suggestion after the picked one, round the end.
pub open spec fn next_pick(selected: int, count: int) -> int {
    if selected + 1 < count {
        selected + 1
    } else {
        0
    }
}

/// The one before it, round the beginning.
pub open spec fn previous_pick(selected: int, count: int) -> int {
    if selected > 0 {
        selected - 1
    } else {
        count - 1
    }
}

/// Down and then Up, or the other way round, picks what was picked.
pub proof fn up_undoes_down(selected: int, count: int)
    requires
        0 <= selected < count,
    ensures
        previous_pick(next_pick(selected, count), count) == selected,
        next_pick(previous_pick(selected, count), count) == selected,
        0 <= next_pick(selected, count) < count,
        0 <= previous_pick(selected, count) < count,
{
}

impl EditorView {
    /// This is `before` with suggestion `selected` picked by hand.
    pub open spec fn picks(&self, before: EditorView, selected: int, now: u64) -> bool {
        self.shows(
            before,
            State {
                hints: Hints {
                    completion: Some(
                        CompletionPopup {
                            selected: selected as usize,
                            chosen: true,
                            ..before.state.hints.completion->0
                        },
                    ),
                    ..before.state.hints
                },
                ..before.state
            },
            Seq::empty(),
            now,
        )
    }

    /// This is `before` after the list was offered a key.
    pub open spec fn handles_completion_key(
        &self,
        before: EditorView,
        event: KeyEvent,
        handled: bool,
        now: u64,
    ) -> bool {
        match before.state.hints.completion {
            Some(popup) => {
                &&& handled == completion::popup_takes(popup, event)
                &&& self.handles_popup_key(before, popup, event, now)
            },
            None => if handled {
                &&& !event.flags.command
                &&& event.code == keys::ESCAPE
                &&& self.shows(before, before.state, Seq::empty(), now)
            } else {
                &&& event.flags.command || event.code != keys::ESCAPE
                &&& *self == before
            },
        }
    }

    /// This is `before` after its list `popup` was offered a key.
    pub open spec fn handles_popup_key(
        &self,
        before: EditorView,
        popup: CompletionPopup,
        event: KeyEvent,
        now: u64,
    ) -> bool {
        let count = popup.shown@.len() as int;
        match completion::popup_key(popup, event) {
            PopupKey::Accept(n) => self.shows(
                before,
                before.state,
                seq![Effect::Run(Task::AcceptCompletion(n))],
                now,
            ),
            PopupKey::Close => self.shows(
                before,
                before.state.without_popup(),
                Seq::empty(),
                now,
            ),
            PopupKey::Next => self.picks(before, next_pick(popup.selected as int, count), now),
            PopupKey::Previous => self.picks(
                before,
                previous_pick(popup.selected as int, count),
                now,
            ),
            PopupKey::CloseAndPass => self.becomes(
                before,
                before.state.without_popup(),
                Seq::empty(),
            ),
            PopupKey::Pass => *self == before,
        }
    }

    /// Offers a key to the open list. Returns whether it took it. With no list
    /// open only Escape means anything, and closes nothing.
    pub fn handle_completion_key(&mut self, event: &KeyEvent, now: u64) -> (handled: bool)
        requires
            old(self).state.wf(),
        ensures
            final(self).state.wf(),
            final(self).handles_completion_key(*old(self), *event, handled, now),
    {
        let (key, selected, count) = match &self.state.hints.completion {
            Some(popup) => (popup_key_of(popup, event), popup.selected, popup.shown.len()),
            None => {
                if event.flags.command || event.code != keys::ESCAPE {
                    return false;
                }
                self.show(now);
                return true;
            },
        };
        match key {
            PopupKey::Accept(n) => {
                self.effects.push(Effect::Run(Task::AcceptCompletion(n)));
                let ghost done = seq![Effect::Run(Task::AcceptCompletion(n))];
                assert(self.effects@ =~= old(self).effects@ + done);
                self.show(now);
                assert(self.effects@ =~= old(self).effects@ + (done + old(self).pumping(now)));
                true
            },
            PopupKey::Close => {
                self.state.hints.completion = None;
                self.show(now);
                true
            },
            PopupKey::Next => {
                let next: usize = if selected + 1 < count {
                    selected + 1
                } else {
                    0
                };
                self.pick(next, now);
                true
            },
            PopupKey::Previous => {
                let previous: usize = if selected > 0 {
                    selected - 1
                } else {
                    count - 1
                };
                self.pick(previous, now);
                true
            },
            PopupKey::CloseAndPass => {
                self.state.hints.completion = None;
                assert(self.effects@ =~= old(self).effects@ + Seq::<Effect>::empty());
                false
            },
            PopupKey::Pass => false,
        }
    }

    /// Picks a suggestion by hand.
    fn pick(&mut self, selected: usize, now: u64)
        requires
            old(self).state.wf(),
            old(self).state.hints.completion is Some,
            selected < old(self).state.hints.completion->0.shown@.len(),
        ensures
            final(self).state.wf(),
            final(self).picks(*old(self), selected as int, now),
    {
        if let Some(popup) = &mut self.state.hints.completion {
            popup.selected = selected;
            popup.chosen = true;
        }
        self.show(now);
    }
}

impl EditorView {
    /// The line before the caret: where a path that is being completed stands.
    pub fn text_before_caret(&self) -> (part: Vec<u8>)
        requires
            self.state.wf(),
        ensures
            ({
                let front = self.state.pane.docs.front();
                part@ == front.text@.subrange(
                    buffer::line_start_at(front.text@, front.cursor as int),
                    front.cursor as int,
                )
            }),
    {
        let front = self.state.pane.docs.active();
        let start = buffer::line_start(&front.text, front.cursor);
        buffer::slice_of(&front.text, start, front.cursor)
    }
}

} // verus!
