//! What the assistant is told, and how it is answered.

use crate::buffer::{slice_of, Buffer};
use crate::claude::{Bridge, Review, Seen, Selection};
use crate::focus::active_review;
use crate::formatting::{self, find_boundary};
use crate::keyboard;
use crate::keys::{self, KeyEvent};
use crate::path::{self, path_eq};
use crate::state::{Claude, EditorView, Effect, Position, State};
use crate::text::{self, joined3, read, same};
use vstd::prelude::*;
use vstd::string::*;

verus! {

/// How much of a selection the assistant is told.
pub const MAX_TEXT: usize = 1048576;

/// How long a selection is still before the assistant hears of it, in milliseconds.
pub const STILL: u64 = 100;

/// What is selected, or the caret.
pub open spec fn seen_of(b: Buffer) -> Seen {
    Seen { buffer: b.id, start: b.selection_start(), end: b.selection_end() }
}

/// Where the told part of a selection ends: very long ones are cut, not inside
/// a character.
pub open spec fn told_end(b: Buffer) -> int {
    let start = b.selection_start() as int;
    let end = b.selection_end() as int;
    if end - start <= MAX_TEXT {
        end
    } else {
        formatting::boundary(b.text@, start, start + MAX_TEXT)
    }
}

/// Whether `selection` is how the assistant is told what is selected in `b`, from
/// `start` to `end` as servers count.
pub open spec fn tells_selection(
    selection: Selection,
    b: Buffer,
    start: Position,
    end: Position,
) -> bool {
    &&& b.path == Some(selection.path)
    &&& selection.text@ == text::readable(
        b.text@.subrange(b.selection_start() as int, told_end(b)),
    )
    &&& selection.start == start
    &&& selection.end == end
}

/// The active document's selection as the assistant is told it: the caret as an empty
/// selection, nothing for a document without a file, or for a review. Very
/// long selections are cut; the range still says where they end.
pub fn claude_selection(s: &State, start: Position, end: Position) -> (selection: Option<Selection>)
    requires
        s.wf(),
    ensures
        selection is Some == (!s.reviewing() && s.pane.docs.front().path is Some),
        selection matches Some(selection) ==> tells_selection(
            selection,
            s.pane.docs.front(),
            start,
            end,
        ),
{
    if active_review(s) {
        return None;
    }
    let b = s.pane.docs.active();
    let (from, to) = if b.anchor < b.cursor {
        (b.anchor, b.cursor)
    } else {
        (b.cursor, b.anchor)
    };
    match &b.path {
        None => None,
        Some(path) => {
            let stop = if to - from <= MAX_TEXT {
                to
            } else {
                find_boundary(&b.text, from, from + MAX_TEXT)
            };
            let text = read(&slice_of(&b.text, from, stop));
            Some(Selection { path: path.clone(), text, start, end })
        },
    }
}

/// Whether two selections say the same.
pub open spec fn same_selection(a: Selection, b: Selection) -> bool {
    &&& path::same_path(a.path@, b.path@)
    &&& a.text@ == b.text@
    &&& a.start == b.start
    &&& a.end == b.end
}

/// See [`same_selection`].
fn selections_match(a: &Selection, b: &Selection) -> (r: bool)
    ensures
        r == same_selection(*a, *b),
{
    path_eq(a.path.as_str(), b.path.as_str()) && same(a.text.as_str(), b.text.as_str()) && a.start
        == b.start && a.end == b.end
}

/// Whether the bridge has to follow the project: it has a root that was not
/// tried yet.
pub open spec fn is_untried(s: State) -> bool {
    match (s.side.tree.root, s.claude.tried) {
        (Some(root), Some(tried)) => !path::same_path(root@, tried@),
        (Some(_), None) => true,
        (None, _) => false,
    }
}

impl EditorView {
    /// This is `before` with the bridge following the project root, unless
    /// `disabled`: the running one is pointed at it, or one is started.
    pub open spec fn follows_root(&self, before: EditorView, disabled: bool) -> bool {
        let root = before.state.side.tree.root;
        if is_untried(before.state) {
            self.becomes(
                before,
                State { claude: Claude { tried: root, ..before.state.claude }, ..before.state },
                if disabled {
                    Seq::empty()
                } else {
                    match before.state.claude.bridge {
                        Some(bridge) => if path::same_path(bridge.root@, root->0@) {
                            Seq::empty()
                        } else {
                            seq![Effect::MoveBridge(root->0)]
                        },
                        None => seq![Effect::StartBridge(root->0)],
                    }
                },
            )
        } else {
            *self == before
        }
    }

    /// Has the bridge follow the project root.
    fn claude_follow_root(&mut self, disabled: bool)
        requires
            old(self).state.wf(),
        ensures
            final(self).state.wf(),
            final(self).follows_root(*old(self), disabled),
    {
        let root = match &self.state.side.tree.root {
            Some(root) => root.clone(),
            None => {
                return;
            },
        };
        let tried = match &self.state.claude.tried {
            Some(tried) => path_eq(root.as_str(), tried.as_str()),
            None => false,
        };
        if tried {
            return;
        }
        self.state.claude.tried = Some(root.clone());
        let served = match &self.state.claude.bridge {
            Some(bridge) => Some(path_eq(bridge.root.as_str(), root.as_str())),
            None => None,
        };
        if disabled {
            assert(self.effects@ =~= old(self).effects@ + Seq::<Effect>::empty());
            return;
        }
        match served {
            Some(true) => {
                assert(self.effects@ =~= old(self).effects@ + Seq::<Effect>::empty());
            },
            Some(false) => {
                self.ask(Effect::MoveBridge(root));
            },
            None => {
                self.ask(Effect::StartBridge(root));
            },
        }
    }

    /// The bridge serves `root` at `port`, or cannot.
    pub fn bridge_started(&mut self, root: String, port: Result<u16, String>, now: u64)
        requires
            old(self).state.wf(),
        ensures
            final(self).state.wf(),
            match port {
                Err(error) => {
                    &&& final(self).state.says(
                        old(self).state.claude.assistant.product@ + " cannot connect: "@ + error@,
                        now,
                    )
                    &&& final(self).becomes(
                        *old(self),
                        old(self).state.saying(final(self).state.status.message->0),
                        seq![Effect::ResumeDisplayLink],
                    )
                },
                Ok(port) => {
                    &&& final(self).state.claude.bridge matches Some(bridge)
                    &&& bridge.root == root
                    &&& bridge.port == port
                    &&& match old(self).state.claude.bridge {
                        Some(old_bridge) => bridge == (Bridge { root, port, ..old_bridge }),
                        None => {
                            &&& bridge.reviews@ == Map::<u64, Review>::empty()
                            &&& !bridge.connected
                            &&& bridge.seen is None
                            &&& bridge.changed_at is None
                            &&& bridge.sent is None
                        },
                    }
                    &&& final(self).becomes(
                        *old(self),
                        old(self).state.with_bridge(Some(bridge)),
                        Seq::empty(),
                    )
                },
            },
    {
        match port {
            Err(error) => {
                self.say(
                    joined3(
                        self.state.claude.assistant.product.as_str(),
                        " cannot connect: ",
                        error.as_str(),
                    ),
                    now,
                );
                self.ask(Effect::ResumeDisplayLink);
            },
            Ok(port) => {
                if let Some(bridge) = &mut self.state.claude.bridge {
                    bridge.root = root;
                    bridge.port = port;
                } else {
                    self.state.claude.bridge = Some(
                        Bridge {
                            root,
                            port,
                            reviews: crate::table::Table::new(),
                            connected: false,
                            seen: None,
                            changed_at: None,
                            sent: None,
                        },
                    );
                }
                assert(self.effects@ =~= old(self).effects@ + Seq::<Effect>::empty());
            },
        }
    }

    /// This is `before` with a moved selection noted.
    pub open spec fn sees_selection(&self, before: EditorView, now: u64) -> bool {
        let seen = seen_of(before.state.pane.docs.front());
        match before.state.claude.bridge {
            None => *self == before,
            Some(bridge) => if bridge.seen == Some(seen) {
                *self == before
            } else if bridge.connected {
                self.becomes(
                    before,
                    before.state.with_bridge(
                        Some(Bridge { seen: Some(seen), changed_at: Some(now), ..bridge }),
                    ),
                    seq![Effect::ResumeDisplayLink],
                )
            } else {
                self.becomes(
                    before,
                    before.state.with_bridge(Some(Bridge { seen: Some(seen), ..bridge })),
                    Seq::empty(),
                )
            },
        }
    }

    /// Notes a moved selection.
    fn see_selection(&mut self, now: u64)
        requires
            old(self).state.wf(),
        ensures
            final(self).state.wf(),
            final(self).sees_selection(*old(self), now),
    {
        let b = self.state.pane.docs.active();
        let (start, end) = if b.anchor < b.cursor {
            (b.anchor, b.cursor)
        } else {
            (b.cursor, b.anchor)
        };
        let seen = Seen { buffer: b.id, start, end };
        let mut connected = false;
        match &mut self.state.claude.bridge {
            None => {
                return;
            },
            Some(bridge) => {
                if bridge.seen == Some(seen) {
                    return;
                }
                bridge.seen = Some(seen);
                if bridge.connected {
                    bridge.changed_at = Some(now);
                    connected = true;
                }
            },
        }
        if connected {
            self.ask(Effect::ResumeDisplayLink);
        } else {
            assert(self.effects@ =~= old(self).effects@ + Seq::<Effect>::empty());
        }
    }

    /// This is `before` after a frame, as far as the assistant goes.
    pub open spec fn minds_assistant(&self, before: EditorView, disabled: bool, now: u64) -> bool {
        exists|followed: EditorView|
            {
                &&& #[trigger] followed.follows_root(before, disabled)
                &&& self.sees_selection(followed, now)
            }
    }

    /// After every frame: the bridge follows the project root, and a moved
    /// selection is noted so the assistant hears about it once it settles.
    pub fn claude_after_frame(&mut self, disabled: bool, now: u64)
        requires
            old(self).state.wf(),
        ensures
            final(self).state.wf(),
            final(self).minds_assistant(*old(self), disabled, now),
    {
        self.claude_follow_root(disabled);
        let ghost followed = *self;
        assert(followed.follows_root(*old(self), disabled));
        self.see_selection(now);
    }
}

/// Whether a selection has been still long enough.
pub open spec fn selection_due(s: State, now: u64) -> bool {
    s.claude.bridge matches Some(bridge) && bridge.changed_at matches Some(at) && now - at >= STILL
}

impl EditorView {
    /// This is `before` with the assistant told what is selected, if it is not what
    /// the assistant already has.
    pub open spec fn flushes_selection(
        &self,
        before: EditorView,
        start: Position,
        end: Position,
    ) -> bool {
        let bridge = before.state.claude.bridge->0;
        let front = before.state.pane.docs.front();
        let quiet = before.state.with_bridge(Some(Bridge { changed_at: None, ..bridge }));
        if before.state.reviewing() || front.path is None || !bridge.connected {
            self.becomes(before, quiet, Seq::empty())
        } else {
            exists|selection: Selection|
                {
                    &&& #[trigger] tells_selection(selection, front, start, end)
                    &&& if bridge.sent matches Some(sent) && same_selection(sent, selection) {
                        self.becomes(before, quiet, Seq::empty())
                    } else {
                        self.becomes(
                            before,
                            before.state.with_bridge(
                                Some(
                                    Bridge { changed_at: None, sent: Some(selection), ..bridge },
                                ),
                            ),
                            seq![Effect::TellSelection],
                        )
                    }
                }
        }
    }

    /// Sends the selection once it has been still for a moment, if it is not
    /// what the assistant already has. `start` and `end` are where it lies, as
    /// servers count.
    pub fn claude_flush_selection(&mut self, start: Position, end: Position, now: u64)
        requires
            old(self).state.wf(),
        ensures
            final(self).state.wf(),
            !selection_due(old(self).state, now) ==> *final(self) == *old(self),
            selection_due(old(self).state, now) ==> final(self).flushes_selection(
                *old(self),
                start,
                end,
            ),
    {
        let due = match &self.state.claude.bridge {
            Some(bridge) => match bridge.changed_at {
                Some(at) => now >= at && now - at >= STILL,
                None => false,
            },
            None => false,
        };
        if !due {
            return;
        }
        let selection = claude_selection(&self.state, start, end);
        let mut tell = false;
        if let Some(bridge) = &mut self.state.claude.bridge {
            bridge.changed_at = None;
            if let Some(selection) = selection {
                if bridge.connected {
                    let known = match &bridge.sent {
                        Some(sent) => selections_match(sent, &selection),
                        None => false,
                    };
                    assert(tells_selection(
                        selection,
                        old(self).state.pane.docs.front(),
                        start,
                        end,
                    ));
                    if !known {
                        bridge.sent = Some(selection);
                        tell = true;
                    }
                }
            }
        }
        if tell {
            self.ask(Effect::TellSelection);
        } else {
            assert(self.effects@ =~= old(self).effects@ + Seq::<Effect>::empty());
        }
    }

    /// This is `before` without the assistant.
    pub open spec fn shuts_claude(&self, before: EditorView) -> bool {
        self.becomes(
            before,
            before.state.with_bridge(None),
            if before.state.claude.bridge is Some {
                seq![Effect::RejectReviews]
            } else {
                Seq::empty()
            },
        )
    }

    /// On the way out: the assistant hears no to anything still waiting.
    pub fn claude_shutdown(&mut self)
        requires
            old(self).state.wf(),
        ensures
            final(self).state.wf(),
            final(self).shuts_claude(*old(self)),
    {
        if self.state.claude.bridge.is_some() {
            self.state.claude.bridge = None;
            self.ask(Effect::RejectReviews);
        } else {
            assert(self.effects@ =~= old(self).effects@ + Seq::<Effect>::empty());
        }
    }

    /// This is `before` with `note` said and a frame on the way.
    pub open spec fn notes(&self, before: EditorView, note: Seq<char>, now: u64) -> bool {
        &&& self.state.says(note, now)
        &&& self.becomes(
            before,
            before.state.saying(self.state.status.message->0),
            seq![Effect::ResumeDisplayLink],
        )
    }

    /// Says something about the assistant.
    pub fn claude_note(&mut self, note: &str, now: u64)
        ensures
            old(self).state.wf() ==> final(self).state.wf(),
            final(self).notes(*old(self), note@, now),
    {
        self.say(note.to_owned(), now);
        self.ask(Effect::ResumeDisplayLink);
    }
}

/// What is said when a review is answered.
pub open spec fn decision_note(accept: bool, name: Seq<char>) -> Seq<char> {
    if accept {
        "Accepted. "@ + name + " writes the file."@
    } else {
        "Rejected. The file is unchanged."@
    }
}

/// Whether `after` is `before` with the review `id` answered.
pub open spec fn answers_review(after: State, before: State, id: u64) -> bool {
    &&& after == before.with_bridge(after.claude.bridge)
    &&& after.claude.bridge matches Some(new)
    &&& before.claude.bridge matches Some(old)
    &&& new.with_reviews(old)
    &&& new.reviews@ == old.reviews@.insert(id, Review { decided: true, ..old.reviews@[id] })
}

impl EditorView {
    /// This is `before` with the review in the active tab answered, if it was
    /// waiting for an answer.
    pub open spec fn decides(&self, before: EditorView, accept: bool, now: u64) -> bool {
        let id = before.state.pane.docs.front().id;
        if before.state.awaits_review(id) {
            let answered = before.state.with_bridge(self.state.claude.bridge);
            &&& answers_review(answered, before.state, id)
            &&& self.state.says(decision_note(accept, before.state.claude.assistant.name@), now)
            &&& self.shows(
                before,
                answered.saying(self.state.status.message->0),
                seq![
                    Effect::DecideReview(id, accept),
                    Effect::ResumeDisplayLink,
                    Effect::InvalidateCursorRects,
                ],
                now,
            )
        } else {
            *self == before
        }
    }

    /// Answers the review in the active tab.
    pub fn claude_decide(&mut self, accept: bool, now: u64)
        requires
            old(self).state.wf(),
        ensures
            final(self).state.wf(),
            final(self).decides(*old(self), accept, now),
    {
        let id = self.state.pane.docs.active().id;
        let answered = match &mut self.state.claude.bridge {
            Some(bridge) => bridge.decide(id),
            None => false,
        };
        if !answered {
            return;
        }
        self.effects.push(Effect::DecideReview(id, accept));
        self.say(
            if accept {
                joined3(
                    "Accepted. ",
                    self.state.claude.assistant.name.as_str(),
                    " writes the file.",
                )
            } else {
                "Rejected. The file is unchanged.".to_owned()
            },
            now,
        );
        self.effects.push(Effect::ResumeDisplayLink);
        self.effects.push(Effect::InvalidateCursorRects);
        let ghost done = seq![
            Effect::DecideReview(id, accept),
            Effect::ResumeDisplayLink,
            Effect::InvalidateCursorRects,
        ];
        assert(self.effects@ =~= old(self).effects@ + done);
        self.show(now);
        assert(self.effects@ =~= old(self).effects@ + (done + old(self).pumping(now)));
    }
}

/// How far a key scrolls a review, in lines; `page` is a screenful.
pub open spec fn review_scroll(code: u16, page: i64) -> Option<i64> {
    if code == keys::UP {
        Some((-1) as i64)
    } else if code == keys::DOWN {
        Some(1)
    } else if code == keys::PAGE_UP {
        Some((-page) as i64)
    } else if code == keys::PAGE_DOWN {
        Some(page)
    } else if code == keys::HOME {
        Some((-0x4000_0000_0000_0000) as i64)
    } else if code == keys::END {
        Some(0x3fff_ffff_ffff_ffffi64)
    } else {
        None
    }
}

/// See [`review_scroll`].
fn scroll_for(code: u16, page: i64) -> (delta: Option<i64>)
    requires
        page > 0,
    ensures
        delta == review_scroll(code, page),
{
    if code == keys::UP {
        Some(-1)
    } else if code == keys::DOWN {
        Some(1)
    } else if code == keys::PAGE_UP {
        Some(-page)
    } else if code == keys::PAGE_DOWN {
        Some(page)
    } else if code == keys::HOME {
        Some(-0x4000_0000_0000_0000i64)
    } else if code == keys::END {
        Some(0x3fff_ffff_ffff_ffffi64)
    } else {
        None
    }
}

impl EditorView {
    /// This is `before` after a review was offered a key. A key that is not
    /// for it is handled as usual; anything else without Command or Control
    /// is kept, since it would type into the assistant's text.
    pub open spec fn handles_review_key(
        &self,
        before: EditorView,
        event: KeyEvent,
        page: i64,
        handled: bool,
        now: u64,
    ) -> bool {
        let code = event.code;
        &&& handled == keyboard::review_takes(event)
        &&& if (code == keys::RETURN || code == keys::KEYPAD_ENTER) && event.flags.command {
            self.decides(before, true, now)
        } else if code == keys::ESCAPE {
            self.decides(before, false, now)
        } else {
            match review_scroll(code, page) {
                Some(delta) => self.shows(
                    before,
                    before.state,
                    if before.state.reviewing() {
                        seq![Effect::ScrollReview(delta)]
                    } else {
                        Seq::empty()
                    },
                    now,
                ),
                None => *self == before,
            }
        }
    }

    /// Keys in a review tab. Returns whether the key was for it. `page` is how
    /// many lines a screenful moves by.
    pub fn handle_review_key(&mut self, event: &KeyEvent, page: i64, now: u64) -> (handled: bool)
        requires
            old(self).state.wf(),
            page > 0,
        ensures
            final(self).state.wf(),
            final(self).handles_review_key(*old(self), *event, page, handled, now),
    {
        let handled = keyboard::takes_review_key(event);
        let code = event.code;
        if (code == keys::RETURN || code == keys::KEYPAD_ENTER) && event.flags.command {
            self.claude_decide(true, now);
        } else if code == keys::ESCAPE {
            self.claude_decide(false, now);
        } else if let Some(delta) = scroll_for(code, page) {
            let ghost mut done = Seq::<Effect>::empty();
            if active_review(&self.state) {
                self.effects.push(Effect::ScrollReview(delta));
                proof {
                    done = seq![Effect::ScrollReview(delta)];
                }
            }
            assert(self.effects@ =~= old(self).effects@ + done);
            self.show(now);
            assert(self.effects@ =~= old(self).effects@ + (done + old(self).pumping(now)));
        }
        handled
    }
}

} // verus!
