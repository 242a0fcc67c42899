//! What is asked of a document's language server.

use crate::servers::{self, lsp_language, speaking_server};
use crate::state::{EditorView, Effect, Position, State};
use vstd::prelude::*;
use vstd::string::*;

verus! {

/// A question about the active document.
#[derive(Clone, Copy, PartialEq, Eq, Structural, Debug)]
pub enum ServerAsk {
    References,
    Signature,
    /// Format it: the indent's width, whether with spaces, and whether a save
    /// asked.
    Format(u32, bool, bool),
}

/// What is said when nobody can be asked.
pub open spec fn no_server() -> Seq<char> {
    "no language server for this file"@
}

/// How a question is put to a server.
pub open spec fn question(ask: ServerAsk, formats: bool, place: String, at: Position) -> Seq<
    Effect,
> {
    match ask {
        ServerAsk::References => seq![Effect::References(place, at)],
        ServerAsk::Signature => seq![Effect::Signature(place, at)],
        ServerAsk::Format(width, spaces, save) => if formats {
            seq![Effect::Format(place, width, spaces, save)]
        } else {
            Seq::empty()
        },
    }
}

/// Whether the server of the active document formats.
pub open spec fn formats(s: State) -> bool {
    let front = s.pane.docs.front();
    s.servers.list@[servers::server_at(
        s.servers.list@,
        servers::language_of(front)->0.server,
    )->0].formats
}

impl EditorView {
    /// This is `flushed` with the question put, or with it said that there is
    /// nobody to ask.
    pub open spec fn puts(
        &self,
        flushed: EditorView,
        ask: ServerAsk,
        at: Position,
        sent: bool,
        now: u64,
    ) -> bool {
        let front = flushed.state.pane.docs.front();
        &&& sent == servers::speaks(flushed.state.servers.list@, front)
        &&& if sent {
            self.becomes(
                flushed,
                flushed.state,
                question(ask, formats(flushed.state), front.path->0, at),
            )
        } else {
            &&& self.state.says(no_server(), now)
            &&& self.becomes(
                flushed,
                flushed.state.saying(self.state.status.message->0),
                Seq::empty(),
            )
        }
    }

    /// This is `before` with the question put once the servers were up to
    /// date.
    pub open spec fn asks_server(
        &self,
        before: EditorView,
        ask: ServerAsk,
        at: Position,
        sent: bool,
        now: u64,
    ) -> bool {
        exists|flushed: EditorView|
            {
                &&& #[trigger] flushed.flushes(before, 0, now)
                &&& self.puts(flushed, ask, at, sent, now)
            }
    }

    /// Puts a question about the active document to its server. Changes typed
    /// so far go first, so it answers about the text on screen. Says so when
    /// there is no server. `at` is the caret, as servers count. Returns
    /// whether somebody was asked.
    pub fn ask_server(&mut self, ask: ServerAsk, at: Position, now: u64) -> (sent: bool)
        requires
            old(self).state.wf(),
        ensures
            final(self).state.wf(),
            final(self).asks_server(*old(self), ask, at, sent, now),
    {
        self.lsp_flush_now(now);
        let ghost flushed = *self;
        assert(flushed.flushes(*old(self), 0, now));
        match speaking_server(&self.state.servers.list, self.state.pane.docs.active()) {
            None => {
                self.say("no language server for this file".to_owned(), now);
                assert(self.effects@ =~= flushed.effects@ + Seq::<Effect>::empty());
                false
            },
            Some(i) => {
                let formats = self.state.servers.list[i].formats;
                let place = match &self.state.pane.docs.active().path {
                    Some(place) => place.clone(),
                    None => {
                        return false;
                    },
                };
                match ask {
                    ServerAsk::References => self.ask(Effect::References(place, at)),
                    ServerAsk::Signature => self.ask(Effect::Signature(place, at)),
                    ServerAsk::Format(width, spaces, save) => {
                        if formats {
                            self.ask(Effect::Format(place, width, spaces, save));
                        } else {
                            assert(self.effects@ =~= flushed.effects@ + Seq::<Effect>::empty());
                        }
                    },
                }
                true
            },
        }
    }

    /// This is `asked` with `note` said, if it was sent.
    pub open spec fn notes_if(
        &self,
        asked: EditorView,
        sent: bool,
        note: Seq<char>,
        now: u64,
    ) -> bool {
        if sent {
            &&& self.state.says(note, now)
            &&& self.marks(asked, asked.state.saying(self.state.status.message->0), Seq::empty())
        } else {
            self.marks(asked, asked.state, Seq::empty())
        }
    }

    /// Asks who refers to the symbol at the caret.
    pub fn find_references(&mut self, at: Position, now: u64)
        requires
            old(self).state.wf(),
        ensures
            final(self).state.wf(),
            exists|asked: EditorView, sent: bool|
                {
                    &&& #[trigger] asked.asks_server(
                        *old(self),
                        ServerAsk::References,
                        at,
                        sent,
                        now,
                    )
                    &&& final(self).notes_if(asked, sent, "finding references\u{2026}"@, now)
                },
    {
        let sent = self.ask_server(ServerAsk::References, at, now);
        let ghost asked = *self;
        assert(asked.asks_server(*old(self), ServerAsk::References, at, sent, now));
        if sent {
            self.say("finding references\u{2026}".to_owned(), now);
        }
        self.request_redraw();
        assert(self.effects@ =~= asked.effects@ + Seq::<Effect>::empty());
    }

    /// Asks for the signature of the call at the caret.
    pub fn request_signature(&mut self, at: Position, now: u64)
        requires
            old(self).state.wf(),
        ensures
            final(self).state.wf(),
            exists|sent: bool| #[trigger]
                final(self).asks_server(*old(self), ServerAsk::Signature, at, sent, now),
    {
        let sent = self.ask_server(ServerAsk::Signature, at, now);
        assert(self.asks_server(*old(self), ServerAsk::Signature, at, sent, now));
    }

    /// This is `before` with its server asked where something is defined, or
    /// told there is none.
    pub open spec fn asks_definition(&self, before: EditorView, at: Position, now: u64) -> bool {
        let front = before.state.pane.docs.front();
        if servers::speaks(before.state.servers.list@, front) {
            self.becomes(
                before,
                before.state,
                seq![Effect::Definition(front.path->0, at)],
            )
        } else {
            &&& self.state.says(no_server(), now)
            &&& self.becomes(
                before,
                before.state.saying(self.state.status.message->0),
                Seq::empty(),
            )
        }
    }

    /// Asks where the symbol at `at` is defined.
    pub fn goto_definition(&mut self, at: Position, now: u64)
        requires
            old(self).state.wf(),
        ensures
            final(self).state.wf(),
            ({
                let front = old(self).state.pane.docs.front();
                if servers::language_of(front) is None {
                    *final(self) == *old(self)
                } else {
                    exists|asked: EditorView, flushed: EditorView|
                        {
                            &&& #[trigger] asked.asks_definition(*old(self), at, now)
                            &&& #[trigger] flushed.flushes(asked, 0, now)
                            &&& final(self).marks(flushed, flushed.state, Seq::empty())
                        }
                }
            }),
    {
        if lsp_language(self.state.pane.docs.active()).is_none() {
            return;
        }
        match speaking_server(&self.state.servers.list, self.state.pane.docs.active()) {
            Some(_) => {
                if let Some(place) = &self.state.pane.docs.active().path {
                    let place = place.clone();
                    self.ask(Effect::Definition(place, at));
                }
            },
            None => {
                self.say("no language server for this file".to_owned(), now);
                assert(self.effects@ =~= old(self).effects@ + Seq::<Effect>::empty());
            },
        }
        let ghost asked = *self;
        assert(asked.asks_definition(*old(self), at, now));
        self.lsp_flush_now(now);
        let ghost flushed = *self;
        assert(flushed.flushes(asked, 0, now));
        self.request_redraw();
        assert(self.effects@ =~= flushed.effects@ + Seq::<Effect>::empty());
    }

    /// This is `before` with its server asked about the symbol at `at`, if it
    /// has one.
    pub open spec fn asks_hover(&self, before: EditorView, at: Position) -> bool {
        let front = before.state.pane.docs.front();
        self.becomes(
            before,
            before.state,
            if servers::speaks(before.state.servers.list@, front) {
                seq![Effect::Hover(front.path->0, at)]
            } else {
                Seq::empty()
            },
        )
    }

    /// Asks what the symbol at the caret is.
    pub fn show_hover(&mut self, at: Position, now: u64)
        requires
            old(self).state.wf(),
        ensures
            final(self).state.wf(),
            ({
                let front = old(self).state.pane.docs.front();
                if servers::language_of(front) is None {
                    *final(self) == *old(self)
                } else {
                    exists|asked: EditorView|
                        {
                            &&& #[trigger] asked.asks_hover(*old(self), at)
                            &&& final(self).flushes(asked, 0, now)
                        }
                }
            }),
    {
        if lsp_language(self.state.pane.docs.active()).is_none() {
            return;
        }
        let speaking = speaking_server(&self.state.servers.list, self.state.pane.docs.active());
        if speaking.is_some() {
            if let Some(place) = &self.state.pane.docs.active().path {
                let place = place.clone();
                self.ask(Effect::Hover(place, at));
            }
        } else {
            assert(self.effects@ =~= old(self).effects@ + Seq::<Effect>::empty());
        }
        let ghost asked = *self;
        assert(asked.asks_hover(*old(self), at));
        self.lsp_flush_now(now);
    }
}

/// Putting a question changes no document, and when it could be put, it still
/// can.
pub proof fn asking_keeps_documents(
    before: EditorView,
    asked: EditorView,
    ask: ServerAsk,
    at: Position,
    sent: bool,
    now: u64,
)
    requires
        asked.asks_server(before, ask, at, sent, now),
    ensures
        asked.state.pane == before.state.pane,
        asked.state.panes == before.state.panes,
        sent == servers::speaks(asked.state.servers.list@, asked.state.pane.docs.front()),
{
}

} // verus!
