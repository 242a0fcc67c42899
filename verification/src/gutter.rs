//! What Git says about the lines on screen: marks in the gutter, and who last
//! changed the caret's line.

use crate::buffer;
use crate::panes::{self, find_document};
use crate::servers::{self, find_due, remove_ids};
use crate::state::{
    Blame, BlameWish, EditorView, Effect, Gutter, GutterState, Ivars, LinePlace, State,
};
use crate::table::has_id;
use crate::text::joined3;
use vstd::prelude::*;
use vstd::string::*;

verus! {

/// Files past this size get no gutter marks: the diff reads the whole text
/// after every pause in typing.
pub const GUTTER_MAX_BYTES: usize = 2097152;

/// How long typing pauses before the marks follow, in milliseconds.
pub const GUTTER_PAUSE: u64 = 200;

/// How long the caret rests on a line before it is asked about.
pub const REST: u64 = 400;

/// A fetched HEAD text: the document it is for, and the text, or none when
/// the file is not in a repository.
pub struct HeadText {
    pub id: u64,
    pub head: Option<Vec<u8>>,
}

/// A stamp that is due.
pub open spec fn due_stamp(now: u64) -> u64 {
    if now >= GUTTER_PAUSE {
        (now - GUTTER_PAUSE) as u64
    } else {
        0
    }
}

/// What is known once `heads` have arrived.
pub open spec fn with_heads(
    rows: Map<u64, GutterState>,
    heads: Seq<HeadText>,
) -> Map<u64, GutterState>
    decreases heads.len(),
{
    if heads.len() == 0 {
        rows
    } else {
        with_heads(rows.insert(heads[0].id, GutterState { head: heads[0].head }), heads.drop_first())
    }
}

/// What is stale once `heads` have arrived: every file that has one.
pub open spec fn stale_with(stamps: Map<u64, u64>, heads: Seq<HeadText>, at: u64) -> Map<u64, u64>
    decreases heads.len(),
{
    if heads.len() == 0 {
        stamps
    } else if heads[0].head is Some {
        stale_with(stamps.insert(heads[0].id, at), heads.drop_first(), at)
    } else {
        stale_with(stamps, heads.drop_first(), at)
    }
}

/// What is still being fetched once `heads` have arrived.
pub open spec fn pending_without(pending: Seq<u64>, heads: Seq<HeadText>) -> Seq<u64>
    decreases heads.len(),
{
    if heads.len() == 0 {
        pending
    } else {
        pending_without(pending.filter(|id: u64| id != heads[0].id), heads.drop_first())
    }
}

/// What `heads` ask for as they arrive: marks that were worked out from another
/// text go.
pub open spec fn cleared_by(heads: Seq<HeadText>) -> Seq<Effect> {
    Seq::new(heads.len(), |i: int| Effect::ClearMarks(heads[i].id))
}

/// `ids` without `id`.
fn drop_id(ids: &Vec<u64>, id: u64) -> (rest: Vec<u64>)
    ensures
        rest@ == ids@.filter(|x: u64| x != id),
{
    let mut rest: Vec<u64> = Vec::new();
    let mut i: usize = 0;
    assert(ids@.take(0) =~= Seq::empty());
    assert(rest@ =~= ids@.take(0).filter(|x: u64| x != id)) by {
        reveal(Seq::filter);
    }
    while i < ids.len()
        invariant
            i <= ids@.len(),
            rest@ == ids@.take(i as int).filter(|x: u64| x != id),
        decreases ids@.len() - i,
    {
        proof {
            let head = ids@.take(i as int);
            assert(ids@.take(i + 1) =~= head.push(ids@[i as int]));
            reveal(Seq::filter);
            assert(head.push(ids@[i as int]).drop_last() =~= head);
        }
        if ids[i] != id {
            rest.push(ids[i]);
        }
        i += 1;
    }
    assert(ids@.take(ids@.len() as int) =~= ids@);
    rest
}

impl EditorView {
    /// This is `before` with fetched HEAD texts landed.
    pub open spec fn lands_heads(&self, before: EditorView, heads: Seq<HeadText>, now: u64) -> bool {
        let gutter = self.state.gutter;
        &&& gutter.rows@ == with_heads(before.state.gutter.rows@, heads)
        &&& gutter.dirty@ == stale_with(before.state.gutter.dirty@, heads, due_stamp(now))
        &&& gutter.pending@ == pending_without(before.state.gutter.pending@, heads)
        &&& self.state == (State {
            gutter: Gutter {
                rows: gutter.rows,
                dirty: gutter.dirty,
                pending: gutter.pending,
                ..before.state.gutter
            },
            ..before.state
        })
        &&& self.ivars == (Ivars {
            needs_redraw: before.ivars.needs_redraw || heads.len() > 0,
            ..before.ivars
        })
        &&& self.effects@ == before.effects@ + cleared_by(heads)
    }

    /// Takes in fetched HEAD texts.
    fn land_heads(&mut self, heads: Vec<HeadText>, now: u64)
        requires
            old(self).state.wf(),
        ensures
            final(self).state.wf(),
            final(self).lands_heads(*old(self), heads@, now),
    {
        let ghost all = heads@;
        let at: u64 = if now >= GUTTER_PAUSE {
            now - GUTTER_PAUSE
        } else {
            0
        };
        if heads.len() > 0 {
            self.ivars.needs_redraw = true;
        }
        let mut rest = heads;
        assert(self.effects@ + cleared_by(rest@) =~= old(self).effects@ + cleared_by(all));
        while rest.len() > 0
            invariant
                self.state.wf(),
                at == due_stamp(now),
                all == heads@,
                with_heads(self.state.gutter.rows@, rest@) == with_heads(
                    old(self).state.gutter.rows@,
                    all,
                ),
                stale_with(self.state.gutter.dirty@, rest@, at) == stale_with(
                    old(self).state.gutter.dirty@,
                    all,
                    at,
                ),
                pending_without(self.state.gutter.pending@, rest@) == pending_without(
                    old(self).state.gutter.pending@,
                    all,
                ),
                self.state == (State {
                    gutter: Gutter {
                        rows: self.state.gutter.rows,
                        dirty: self.state.gutter.dirty,
                        pending: self.state.gutter.pending,
                        ..old(self).state.gutter
                    },
                    ..old(self).state
                }),
                self.ivars == (Ivars {
                    needs_redraw: old(self).ivars.needs_redraw || all.len() > 0,
                    ..old(self).ivars
                }),
                self.effects@ + cleared_by(rest@) == old(self).effects@ + cleared_by(all),
            decreases rest@.len(),
        {
            let ghost left = rest@;
            let ghost effects = self.effects@;
            let landed = rest.remove(0);
            assert(rest@ =~= left.drop_first());
            self.effects.push(Effect::ClearMarks(landed.id));
            assert(self.effects@ + cleared_by(rest@) =~= effects + cleared_by(left));
            self.state.gutter.pending = drop_id(&self.state.gutter.pending, landed.id);
            if landed.head.is_some() {
                self.state.gutter.dirty.insert(landed.id, at);
            }
            self.state.gutter.rows.insert(landed.id, GutterState { head: landed.head });
        }
        assert(self.effects@ + cleared_by(rest@) =~= self.effects@);
    }
}

/// Whether the HEAD text of the active file has to be fetched: it has never
/// been looked at.
pub open spec fn wants_head(s: State) -> bool {
    let front = s.pane.docs.front();
    &&& front.path is Some
    &&& !front.preview_file
    &&& front.text@.len() <= GUTTER_MAX_BYTES
    &&& !s.gutter.rows@.contains_key(front.id)
    &&& !s.gutter.pending@.contains(front.id)
}

/// Whether the marks of document `id` can be worked out.
pub open spec fn has_marks(s: State, id: u64) -> bool {
    &&& s.gutter.rows@.contains_key(id)
    &&& s.gutter.rows@[id].head is Some
    &&& panes::document(s, id) is Some
}

/// Whether document `id` is small enough for marks.
pub open spec fn is_marked(s: State, id: u64) -> bool {
    has_marks(s, id) && panes::document(s, id)->0.text@.len() <= GUTTER_MAX_BYTES
}

/// What is asked for about the documents `ids`.
pub open spec fn mark_work(s: State, ids: Seq<u64>) -> Seq<Effect>
    decreases ids.len(),
{
    if ids.len() == 0 {
        Seq::empty()
    } else {
        let head = mark_work(s, ids.drop_last());
        if is_marked(s, ids.last()) {
            head.push(Effect::Diff(ids.last()))
        } else if has_marks(s, ids.last()) {
            head.push(Effect::ClearMarks(ids.last()))
        } else {
            head
        }
    }
}

/// Whether one of `ids` gets new marks.
pub open spec fn any_marked(s: State, ids: Seq<u64>) -> bool {
    exists|i: int| 0 <= i < ids.len() && is_marked(s, #[trigger] ids[i])
}

impl EditorView {
    /// This is `before` with the HEAD text of the active file being fetched,
    /// if it has to be.
    pub open spec fn fetches_head(&self, before: EditorView) -> bool {
        let front = before.state.pane.docs.front();
        if wants_head(before.state) {
            &&& self.state.gutter.pending@ == before.state.gutter.pending@.push(front.id)
            &&& self.becomes(
                before,
                State {
                    gutter: Gutter {
                        pending: self.state.gutter.pending,
                        ..before.state.gutter
                    },
                    ..before.state
                },
                seq![Effect::FetchHead(front.id)],
            )
        } else {
            *self == before
        }
    }

    /// Asks for the HEAD text of the active file, if it has to be fetched.
    fn fetch_head(&mut self)
        requires
            old(self).state.wf(),
        ensures
            final(self).state.wf(),
            final(self).fetches_head(*old(self)),
    {
        let front = self.state.pane.docs.active();
        let id = front.id;
        if front.path.is_some() && !front.preview_file && front.text.len() <= GUTTER_MAX_BYTES
            && !self.state.gutter.rows.contains_key(&id) && !has_id(&self.state.gutter.pending, id) {
            self.state.gutter.pending.push(id);
            self.ask(Effect::FetchHead(id));
        }
    }

    /// This is `before` with the documents edited a moment ago diffed.
    pub open spec fn rediffs(&self, before: EditorView, now: u64) -> bool {
        let ids = servers::due_ids(before.state.gutter.dirty.rows@, GUTTER_PAUSE, now);
        &&& self.state.gutter.dirty@ == servers::without_ids(before.state.gutter.dirty@, ids)
        &&& self.state == (State {
            gutter: Gutter { dirty: self.state.gutter.dirty, ..before.state.gutter },
            ..before.state
        })
        &&& self.ivars == (Ivars {
            needs_redraw: before.ivars.needs_redraw || any_marked(before.state, ids),
            ..before.ivars
        })
        &&& self.effects@ == before.effects@ + mark_work(before.state, ids)
    }

    /// Asks for the marks of the documents edited a moment ago.
    fn rediff(&mut self, now: u64)
        requires
            old(self).state.wf(),
        ensures
            final(self).state.wf(),
            final(self).rediffs(*old(self), now),
    {
        let ids = find_due(&self.state.gutter.dirty, GUTTER_PAUSE, now);
        let ghost before = *self;
        let mut redraw = false;
        let mut i: usize = 0;
        assert(ids@.take(0) =~= Seq::empty());
        assert(self.effects@ =~= before.effects@ + Seq::<Effect>::empty());
        while i < ids.len()
            invariant
                i <= ids@.len(),
                before == *old(self),
                before.state.wf(),
                self.state == before.state,
                self.ivars == before.ivars,
                self.effects@ == before.effects@ + mark_work(before.state, ids@.take(i as int)),
                redraw == any_marked(before.state, ids@.take(i as int)),
            decreases ids@.len() - i,
        {
            let ghost now_done = ids@.take(i + 1);
            let ghost effects = self.effects@;
            let id = ids[i];
            proof {
                assert(now_done.drop_last() =~= ids@.take(i as int));
                assert(now_done.last() == id);
            }
            let has_head = match self.state.gutter.rows.get(&id) {
                Some(row) => row.head.is_some(),
                None => false,
            };
            let mut marked = false;
            if has_head {
                if let Some(b) = find_document(&self.state, id) {
                    if b.text.len() <= GUTTER_MAX_BYTES {
                        marked = true;
                        self.effects.push(Effect::Diff(id));
                    } else {
                        self.effects.push(Effect::ClearMarks(id));
                    }
                }
            }
            proof {
                assert(marked == is_marked(before.state, id));
                assert(self.effects@ =~= before.effects@ + mark_work(before.state, now_done));
                assert(any_marked(before.state, now_done) == (any_marked(
                    before.state,
                    ids@.take(i as int),
                ) || marked)) by {
                    if any_marked(before.state, now_done) {
                        let k = choose|k: int|
                            0 <= k < now_done.len() && is_marked(
                                before.state,
                                #[trigger] now_done[k],
                            );
                        if k < i {
                            assert(is_marked(before.state, ids@.take(i as int)[k]));
                        }
                    }
                    if any_marked(before.state, ids@.take(i as int)) {
                        let k = choose|k: int|
                            0 <= k < i && is_marked(
                                before.state,
                                #[trigger] ids@.take(i as int)[k],
                            );
                        assert(is_marked(before.state, now_done[k]));
                    }
                    if marked {
                        assert(is_marked(before.state, now_done[i as int]));
                    }
                }
            }
            if marked {
                redraw = true;
            }
            i += 1;
        }
        assert(ids@.take(ids@.len() as int) =~= ids@);
        remove_ids(&mut self.state.gutter.dirty, &ids);
        if redraw {
            self.ivars.needs_redraw = true;
        }
    }

    /// Keeps the marks of open files current: takes in the HEAD texts that
    /// were fetched, fetches that of the active file when it has none yet, and
    /// diffs files edited since their marks were worked out, once typing
    /// pauses.
    pub fn gutter_refresh(&mut self, heads: Vec<HeadText>, now: u64)
        requires
            old(self).state.wf(),
        ensures
            final(self).state.wf(),
            exists|landed: EditorView, fetched: EditorView|
                {
                    &&& #[trigger] landed.lands_heads(*old(self), heads@, now)
                    &&& #[trigger] fetched.fetches_head(landed)
                    &&& final(self).rediffs(fetched, now)
                },
    {
        self.land_heads(heads, now);
        let ghost landed = *self;
        assert(landed.lands_heads(*old(self), heads@, now));
        self.fetch_head();
        let ghost fetched = *self;
        assert(fetched.fetches_head(landed));
        self.rediff(now);
    }
}

/// How a question about a line stands.
pub enum BlameReply {
    /// Nobody was asked, or nothing came yet.
    Waiting,
    Arrived(LinePlace, String),
    /// Whoever was asked is gone.
    Lost,
}

/// Where the caret is.
pub open spec fn caret_place(s: State) -> LinePlace {
    let front = s.pane.docs.front();
    LinePlace {
        buffer: front.id,
        line: buffer::line_at(front.text@, front.cursor as int) as usize,
    }
}

/// Whether the caret's line can be asked about: Git knows the file, whose HEAD
/// text was found for the gutter, and it is not too large.
pub open spec fn can_blame(s: State) -> bool {
    let front = s.pane.docs.front();
    &&& s.gutter.rows@.contains_key(front.id)
    &&& s.gutter.rows@[front.id].head matches Some(head)
    &&& head@.len() > 0
    &&& s.git.root is Some
    &&& front.path is Some
    &&& front.text@.len() <= GUTTER_MAX_BYTES
}

impl State {
    /// The state with other answers about lines.
    pub open spec fn blaming(
        self,
        blame: Option<Blame>,
        wish: Option<BlameWish>,
        asking: bool,
    ) -> State {
        State { gutter: Gutter { blame, wish, asking, ..self.gutter }, ..self }
    }
}

impl EditorView {
    /// This is `before` with the state `state`, a redraw asked for if
    /// `redraw`, having asked for `done`.
    pub open spec fn settles_blame(
        &self,
        before: EditorView,
        state: State,
        redraw: bool,
        done: Seq<Effect>,
    ) -> bool {
        &&& self.state == state
        &&& self.ivars == (Ivars {
            needs_redraw: before.ivars.needs_redraw || redraw,
            ..before.ivars
        })
        &&& self.effects@ == before.effects@ + done
    }

    /// This is `before` after seeing whether the caret's line is to be asked
    /// about: once the caret has rested on it.
    pub open spec fn rests(&self, before: EditorView, now: u64) -> bool {
        let g = before.state.gutter;
        let here = caret_place(before.state);
        if g.blame matches Some(blame) && blame.place == here {
            *self == before
        } else if g.wish matches Some(wish) && wish.place == here {
            if now - g.wish->0.since < REST {
                *self == before
            } else if can_blame(before.state) {
                self.settles_blame(
                    before,
                    before.state.blaming(g.blame, None, true),
                    false,
                    seq![Effect::AskBlame(here)],
                )
            } else {
                self.settles_blame(
                    before,
                    before.state.blaming(g.blame, None, g.asking),
                    false,
                    Seq::empty(),
                )
            }
        } else {
            self.settles_blame(
                before,
                before.state.blaming(
                    None,
                    Some(BlameWish { place: here, since: now }),
                    g.asking,
                ),
                g.blame is Some,
                Seq::empty(),
            )
        }
    }

    /// Sees whether the caret's line is to be asked about.
    fn rest(&mut self, now: u64)
        requires
            old(self).state.wf(),
        ensures
            final(self).state.wf(),
            final(self).rests(*old(self), now),
    {
        let front = self.state.pane.docs.active();
        let here = LinePlace { buffer: front.id, line: front.cursor_line() };
        let known = match &self.state.gutter.blame {
            Some(blame) => blame.place == here,
            None => false,
        };
        if known {
            return;
        }
        let wished = match self.state.gutter.wish {
            Some(wish) => if wish.place == here {
                Some(wish.since)
            } else {
                None
            },
            None => None,
        };
        match wished {
            None => {
                self.state.gutter.wish = Some(BlameWish { place: here, since: now });
                if self.state.gutter.blame.is_some() {
                    self.state.gutter.blame = None;
                    self.ivars.needs_redraw = true;
                }
                assert(self.effects@ =~= old(self).effects@ + Seq::<Effect>::empty());
            },
            Some(since) => {
                if now < since || now - since < REST {
                    return;
                }
                self.state.gutter.wish = None;
                let front = self.state.pane.docs.active();
                let in_git = match self.state.gutter.rows.get(&front.id) {
                    Some(row) => match &row.head {
                        Some(head) => head.len() > 0,
                        None => false,
                    },
                    None => false,
                };
                if in_git && self.state.git.root.is_some() && front.path.is_some()
                    && front.text.len() <= GUTTER_MAX_BYTES {
                    self.state.gutter.asking = true;
                    self.ask(Effect::AskBlame(here));
                } else {
                    assert(self.effects@ =~= old(self).effects@ + Seq::<Effect>::empty());
                }
            },
        }
    }

    /// This is `before` with the answer about a line taken.
    pub open spec fn hears_blame(&self, before: EditorView, reply: BlameReply) -> bool {
        let g = before.state.gutter;
        match reply {
            BlameReply::Arrived(place, text) => self.settles_blame(
                before,
                before.state.blaming(Some(Blame { place, text }), g.wish, false),
                true,
                Seq::empty(),
            ),
            BlameReply::Lost => self.settles_blame(
                before,
                before.state.blaming(g.blame, g.wish, false),
                false,
                Seq::empty(),
            ),
            BlameReply::Waiting => *self == before,
        }
    }

    /// Who last changed the caret's line, once the caret has rested on it.
    /// While an answer is awaited nothing else is asked.
    pub fn blame_refresh(&mut self, reply: BlameReply, now: u64)
        requires
            old(self).state.wf(),
        ensures
            final(self).state.wf(),
            if !old(self).state.gutter.asking {
                final(self).rests(*old(self), now)
            } else if reply is Waiting {
                *final(self) == *old(self)
            } else {
                exists|heard: EditorView|
                    {
                        &&& #[trigger] heard.hears_blame(*old(self), reply)
                        &&& final(self).rests(heard, now)
                    }
            },
    {
        if self.state.gutter.asking {
            let ghost answer = reply;
            match reply {
                BlameReply::Waiting => {
                    return;
                },
                BlameReply::Arrived(place, text) => {
                    self.state.gutter.asking = false;
                    self.state.gutter.blame = Some(Blame { place, text });
                    self.ivars.needs_redraw = true;
                },
                BlameReply::Lost => {
                    self.state.gutter.asking = false;
                },
            }
            assert(self.effects@ =~= old(self).effects@ + Seq::<Effect>::empty());
            assert(self.hears_blame(*old(self), answer));
        }
        self.rest(now);
    }
}

/// What is said of a line: who changed it, how long ago, and why.
pub fn blame_note(author: &Option<String>, ago: &str, summary: &str) -> (note: String)
    ensures
        note@ == (match author {
            None => "not committed yet"@,
            Some(author) => author@ + ", "@ + (ago@ + ": "@ + summary@),
        }),
{
    match author {
        None => "not committed yet".to_owned(),
        Some(author) => {
            let when = joined3(ago, ": ", summary);
            joined3(author.as_str(), ", ", when.as_str())
        },
    }
}

/// A file over 2 MiB gets no marks: nobody is asked to work them out.
pub proof fn a_large_file_gets_no_marks(s: State, ids: Seq<u64>, id: u64)
    requires
        panes::document(s, id) matches Some(b) && b.text@.len() > 2 * 1024 * 1024,
    ensures
        !mark_work(s, ids).contains(Effect::Diff(id)),
    decreases ids.len(),
{
    if ids.len() > 0 {
        a_large_file_gets_no_marks(s, ids.drop_last(), id);
        let head = mark_work(s, ids.drop_last());
        let all = mark_work(s, ids);
        assert forall|k: int| 0 <= k < all.len() implies all[k] != Effect::Diff(id) by {
            if k < head.len() {
                assert(all[k] == head[k]);
                assert(head.contains(head[k]));
            }
        }
    }
}

} // verus!
