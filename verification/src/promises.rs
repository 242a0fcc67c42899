//! What the window promises of whole actions, in terms of what went in and
//! what came out.

use crate::ask::ServerAsk;
use crate::buffer::{self, Buffer, Edit, Field};
use crate::disk::{self, DiskReport, DiskState};
use crate::documents::{self, Documents};
use crate::events::ServerEvent;
use crate::files::Opened;
use crate::git::{self, GitPanel, GitSpot};
use crate::keys::{self, KeyEvent};
use crate::mouse::{Press, Under};
use crate::panes;
use crate::path;
use crate::places::FilePlace;
use crate::rename::{FileEdits, Renamed};
use crate::replacing::{FileMatches, Replaced};
use crate::servers::{self, Wanted};
use crate::state::{EditorView, Effect, Position, Server, Servers, State, TabHit, Task};
use crate::tabs;
use vstd::prelude::*;

verus! {

/// Whether `effect` stands in `list` exactly once.
pub open spec fn stands_once(list: Seq<Effect>, effect: Effect) -> bool {
    exists|i: int|
        {
            &&& 0 <= i < list.len()
            &&& #[trigger] list[i] == effect
            &&& forall|j: int| 0 <= j < list.len() && #[trigger] list[j] == effect ==> j == i
        }
}

/// What was asked for between `before` and `after`.
pub open spec fn gained(after: EditorView, before: EditorView) -> Seq<Effect> {
    after.effects@.skip(before.effects@.len() as int)
}

/// Whether the stamp of row `r` is old enough to be sent.
pub open spec fn is_due(s: State, r: int, pause: u64, now: u64) -> bool {
    now - s.servers.dirty.rows@[r].1 >= pause || pause == 0
}

/// Whether `id` has a row that is due.
pub(crate) open spec fn in_due_row(rows: Seq<(u64, u64)>, id: u64, pause: u64, now: u64) -> bool {
    exists|r: int|
        {
            &&& 0 <= r < rows.len()
            &&& (#[trigger] rows[r]).0 == id
            &&& (pause == 0 || now - rows[r].1 >= pause)
        }
}

/// The ids that are due come from due rows, each once.
pub(crate) proof fn due_ids_hold(rows: Seq<(u64, u64)>, pause: u64, now: u64)
    requires
        forall|i: int, j: int| 0 <= i < j < rows.len() ==> (#[trigger] rows[i]).0 != (
        #[trigger] rows[j]).0,
    ensures
        servers::due_ids(rows, pause, now).no_duplicates(),
        forall|k: int|
            0 <= k < servers::due_ids(rows, pause, now).len() ==> in_due_row(
                rows,
                #[trigger] servers::due_ids(rows, pause, now)[k],
                pause,
                now,
            ),
        forall|r: int|
            0 <= r < rows.len() && (pause == 0 || now - (#[trigger] rows[r]).1 >= pause)
                ==> servers::due_ids(rows, pause, now).contains(rows[r].0),
    decreases rows.len(),
{
    if rows.len() > 0 {
        let front = rows.drop_last();
        let last = rows.len() - 1;
        due_ids_hold(front, pause, now);
        let head = servers::due_ids(front, pause, now);
        let ids = servers::due_ids(rows, pause, now);
        assert(forall|r: int| 0 <= r < front.len() ==> front[r] == rows[r]);
        assert forall|k: int| 0 <= k < ids.len() implies in_due_row(
            rows,
            #[trigger] ids[k],
            pause,
            now,
        ) by {
            if k < head.len() {
                assert(head[k] == ids[k]);
                assert(in_due_row(front, head[k], pause, now));
                let r = choose|r: int|
                    {
                        &&& 0 <= r < front.len()
                        &&& (#[trigger] front[r]).0 == head[k]
                        &&& (pause == 0 || now - front[r].1 >= pause)
                    };
                assert(rows[r].0 == ids[k]);
            } else {
                assert(rows[last].0 == ids[k]);
            }
        }
        assert forall|i: int, j: int|
            0 <= i < ids.len() && 0 <= j < ids.len() && i < j implies ids[i] != ids[j] by {
            assert(ids[i] == head[i]);
            if j < head.len() {
                assert(ids[j] == head[j]);
            } else {
                assert(in_due_row(front, head[i], pause, now));
                let r = choose|r: int|
                    {
                        &&& 0 <= r < front.len()
                        &&& (#[trigger] front[r]).0 == head[i]
                        &&& (pause == 0 || now - front[r].1 >= pause)
                    };
                assert(rows[r].0 != rows[last].0);
            }
        }
        assert forall|r: int|
            0 <= r < rows.len() && (pause == 0 || now - (#[trigger] rows[r]).1
                >= pause) implies ids.contains(rows[r].0) by {
            if r < last {
                assert(head.contains(front[r].0));
                let k = choose|k: int| 0 <= k < head.len() && head[k] == front[r].0;
                assert(ids[k] == rows[r].0);
            } else {
                assert(ids.last() == rows[last].0);
            }
        }
    }
}

/// What [`panes::document`] finds is an open document with that id.
pub(crate) proof fn document_is_open(s: State, id: u64)
    ensures
        match panes::document(s, id) {
            Some(b) => b.id == id && panes::is_open(s, b),
            None => forall|b: Buffer| #[trigger] panes::is_open(s, b) ==> b.id != id,
        },
{
    let hit = |b: Buffer| b.id == id;
    documents::first_where_is_first(s.pane.docs.list@, hit);
    panes::pane_with_id_is_first(s.panes@, id);
    if s.pane.docs.position_with(id) is None {
        if let Some(p) = panes::pane_with_id(s.panes@, id) {
            documents::first_where_is_first(s.panes@[p].docs.list@, hit);
            let i = s.panes@[p].docs.position_with(id)->0;
            assert(s.panes@[p].docs.list@[i].id == id);
            assert(s.panes@[p].docs.list@.contains(s.panes@[p].docs.list@[i]));
        } else {
            assert forall|b: Buffer| #[trigger] panes::is_open(s, b) implies b.id != id by {
                if s.pane.docs.list@.contains(b) {
                    let i = choose|i: int| 0 <= i < s.pane.docs.list@.len() && s.pane.docs.list@[i] == b;
                    assert(!hit(s.pane.docs.list@[i]));
                } else {
                    let p = choose|p: int|
                        0 <= p < s.panes@.len() && (#[trigger] s.panes@[p]).docs.list@.contains(b);
                    documents::first_where_is_first(s.panes@[p].docs.list@, hit);
                    let list = s.panes@[p].docs.list@;
                    let i = choose|i: int| 0 <= i < list.len() && list[i] == b;
                    assert(s.panes@[p].docs.position_with(id) is None);
                    assert(!hit(list[i]));
                }
            }
        }
    }
}

/// The batch of `ids` has each of them once at most, and every open document
/// among them that a server should know.
proof fn batch_holds(s: State, ids: Seq<u64>)
    requires
        forall|i: int, j: int| 0 <= i < j < ids.len() ==> #[trigger] ids[i] != #[trigger] ids[j],
    ensures
        ({
            let batch = servers::batch_for(s, ids);
            &&& forall|i: int, j: int|
                0 <= i < j < batch.len() ==> (#[trigger] batch[i]).id != (#[trigger] batch[j]).id
            &&& forall|i: int|
                0 <= i < batch.len() ==> {
                    let w = #[trigger] batch[i];
                    &&& ids.contains(w.id)
                    &&& panes::document(s, w.id) matches Some(b)
                    &&& b.path == Some(w.path)
                    &&& b.language == Some(w.language)
                }
            &&& forall|k: int|
                0 <= k < ids.len() ==> match panes::document(s, #[trigger] ids[k]) {
                    Some(b) => b.path is Some && b.language is Some ==> exists|i: int|
                        {
                            &&& 0 <= i < batch.len()
                            &&& (#[trigger] batch[i]).id == ids[k]
                        },
                    None => true,
                }
        }),
    decreases ids.len(),
{
    if ids.len() > 0 {
        let front = ids.drop_last();
        assert(forall|i: int| 0 <= i < front.len() ==> front[i] == ids[i]);
        batch_holds(s, front);
        let head = servers::batch_for(s, front);
        let batch = servers::batch_for(s, ids);
        let last = ids.last();
        document_is_open(s, last);
        assert forall|i: int| 0 <= i < batch.len() implies {
            let w = #[trigger] batch[i];
            &&& ids.contains(w.id)
            &&& panes::document(s, w.id) matches Some(b)
            &&& b.path == Some(w.path)
            &&& b.language == Some(w.language)
        } by {
            if i < head.len() {
                assert(batch[i] == head[i]);
                let k = choose|k: int| 0 <= k < front.len() && front[k] == head[i].id;
                assert(ids[k] == batch[i].id);
            } else {
                assert(ids[ids.len() - 1] == batch[i].id);
            }
        }
        assert forall|i: int, j: int| 0 <= i < j < batch.len() implies (#[trigger] batch[i]).id
            != (#[trigger] batch[j]).id by {
            assert(batch[i] == head[i]);
            if j < head.len() {
                assert(batch[j] == head[j]);
            } else {
                let k = choose|k: int| 0 <= k < front.len() && front[k] == head[i].id;
                assert(ids[k] != ids[ids.len() - 1]);
            }
        }
        assert forall|k: int| 0 <= k < ids.len() implies match panes::document(
            s,
            #[trigger] ids[k],
        ) {
            Some(b) => b.path is Some && b.language is Some ==> exists|i: int|
                {
                    &&& 0 <= i < batch.len()
                    &&& (#[trigger] batch[i]).id == ids[k]
                },
            None => true,
        } by {
            if k < front.len() {
                assert(front[k] == ids[k]);
                if let Some(b) = panes::document(s, ids[k]) {
                    if b.path is Some && b.language is Some {
                        let i = choose|i: int|
                            0 <= i < head.len() && (#[trigger] head[i]).id == front[k];
                        assert(batch[i] == head[i]);
                    }
                }
            } else if let Some(b) = panes::document(s, last) {
                if b.path is Some && b.language is Some {
                    assert(batch[batch.len() - 1].id == ids[k]);
                }
            }
        }
    }
}

/// Whether what is told of `w` after `earlier` is that it changed.
spec fn is_news(list: Seq<Server>, earlier: Seq<Wanted>, w: Wanted) -> Effect {
    if servers::told_by_then(list, earlier, w) {
        Effect::DidChange(w.id)
    } else {
        Effect::DidOpen(w.id)
    }
}

/// Of a batch in which no id comes twice, each document whose server listens
/// is told about once, in one way, and nothing else is sent.
proof fn news_holds(list: Seq<Server>, batch: Seq<Wanted>)
    requires
        forall|i: int, j: int|
            0 <= i < j < batch.len() ==> (#[trigger] batch[i]).id != (#[trigger] batch[j]).id,
    ensures
        ({
            let sent = servers::news(list, batch, true);
            &&& forall|e: int|
                0 <= e < sent.len() ==> exists|i: int|
                    {
                        &&& 0 <= i < batch.len()
                        &&& servers::hears(list, #[trigger] batch[i])
                        &&& #[trigger] sent[e] == is_news(list, batch.take(i), batch[i])
                    }
            &&& forall|i: int|
                0 <= i < batch.len() && servers::hears(list, #[trigger] batch[i]) ==> stands_once(
                    sent,
                    is_news(list, batch.take(i), batch[i]),
                )
        }),
    decreases batch.len(),
{
    if batch.len() > 0 {
        let front = batch.drop_last();
        let n = front.len() as int;
        assert(forall|i: int| 0 <= i < n ==> front[i] == batch[i]);
        assert(forall|i: int| 0 <= i < n ==> front.take(i) =~= #[trigger] batch.take(i));
        assert(batch.take(n) =~= front);
        news_holds(list, front);
        let head = servers::news(list, front, true);
        let sent = servers::news(list, batch, true);
        assert forall|e: int| 0 <= e < sent.len() implies exists|i: int|
            {
                &&& 0 <= i < batch.len()
                &&& servers::hears(list, #[trigger] batch[i])
                &&& #[trigger] sent[e] == is_news(list, batch.take(i), batch[i])
            } by {
            if e < head.len() {
                assert(head[e] == sent[e]);
                let i = choose|i: int|
                    {
                        &&& 0 <= i < n
                        &&& servers::hears(list, #[trigger] front[i])
                        &&& head[e] == is_news(list, front.take(i), front[i])
                    };
                assert(servers::hears(list, batch[i]));
                assert(front.take(i) =~= batch.take(i));
            } else {
                assert(servers::hears(list, batch[n]));
            }
        }
        assert forall|i: int|
            0 <= i < batch.len() && servers::hears(list, #[trigger] batch[i]) implies stands_once(
            sent,
            is_news(list, batch.take(i), batch[i]),
        ) by {
            let told = is_news(list, batch.take(i), batch[i]);
            if i < n {
                assert(front.take(i) =~= batch.take(i));
                assert(servers::hears(list, front[i]));
                let e = choose|e: int|
                    {
                        &&& 0 <= e < head.len()
                        &&& #[trigger] head[e] == told
                        &&& forall|j: int|
                            0 <= j < head.len() && #[trigger] head[j] == told ==> j == e
                    };
                assert(sent[e] == told);
                assert(batch[i].id != batch[n].id);
                assert forall|j: int| 0 <= j < sent.len() && #[trigger] sent[j]
                    == told implies j == e by {
                    if j < head.len() {
                        assert(head[j] == sent[j]);
                    }
                }
            } else {
                let e = sent.len() - 1;
                assert(sent[e] == told);
                assert forall|j: int| 0 <= j < sent.len() && #[trigger] sent[j]
                    == told implies j == e by {
                    if j < head.len() {
                        assert(head[j] == sent[j]);
                        let k = choose|k: int|
                            {
                                &&& 0 <= k < n
                                &&& servers::hears(list, #[trigger] front[k])
                                &&& head[j] == is_news(list, front.take(k), front[k])
                            };
                        assert(batch[k].id != batch[n].id);
                    }
                }
            }
        }
    }
}

/// Whether `s` is the server that speaks the language of `b`: the first of
/// `list` with its key, and ready.
pub open spec fn serves(list: Seq<Server>, s: int, b: Buffer) -> bool {
    &&& 0 <= s < list.len()
    &&& b.language matches Some(language)
    &&& list[s].key == language.server
    &&& list[s].ready
    &&& forall|j: int| 0 <= j < s ==> (#[trigger] list[j]).key != language.server
}

/// Whether one of the files that `server` was told about is `place`.
pub open spec fn has_heard_of(server: Server, place: Seq<char>) -> bool {
    exists|k: int|
        0 <= k < server.known@.len() && path::same_path((#[trigger] server.known@[k])@, place)
}

/// A pause sends every document that was typed in, once, to the server that
/// is ready for it: as a change when the server knew the file, and as a file
/// it opens when neither it nor anything else that is open has that path.
pub proof fn every_edit_reaches_its_server(
    after: EditorView,
    before: EditorView,
    pause: u64,
    now: u64,
    r: int,
    b: Buffer,
    s: int,
)
    requires
        before.state.wf(),
        after.flushes(before, pause, now),
        0 <= r < before.state.servers.dirty.rows@.len(),
        is_due(before.state, r, pause, now),
        before.state.servers.dirty.rows@[r].0 == b.id,
        panes::is_open(before.state, b),
        forall|other: Buffer|
            #[trigger] panes::is_open(before.state, other) && other.id == b.id ==> other == b,
        b.path is Some,
        serves(before.state.servers.list@, s, b),
    ensures
        after.effects@.len() >= before.effects@.len(),
        after.effects@.take(before.effects@.len() as int) == before.effects@,
        has_heard_of(before.state.servers.list@[s], b.path->0@) ==> {
            &&& stands_once(gained(after, before), Effect::DidChange(b.id))
            &&& !gained(after, before).contains(Effect::DidOpen(b.id))
        },
        !has_heard_of(before.state.servers.list@[s], b.path->0@) && (forall|other: Buffer|
            {
                #[trigger] panes::is_open(before.state, other) && other != b && other.path is Some
                    ==> !path::same_path(other.path->0@, b.path->0@)
            }) ==> {
            &&& stands_once(gained(after, before), Effect::DidOpen(b.id))
            &&& !gained(after, before).contains(Effect::DidChange(b.id))
        },
{
    let rows = before.state.servers.dirty.rows@;
    let list = before.state.servers.list@;
    let ids = servers::due_ids(rows, pause, now);
    due_ids_hold(rows, pause, now);
    assert(ids.contains(b.id));
    let batch = servers::batch_for(before.state, ids);
    batch_holds(before.state, ids);
    document_is_open(before.state, b.id);
    assert(panes::document(before.state, b.id) == Some(b));
    let k = choose|k: int| 0 <= k < ids.len() && ids[k] == b.id;
    assert(panes::document(before.state, ids[k]) == Some(b));
    let i = choose|i: int| 0 <= i < batch.len() && (#[trigger] batch[i]).id == ids[k];
    let w = batch[i];
    news_holds(list, batch);
    let sent = servers::news(list, batch, true);
    let unstamped = choose|unstamped: EditorView|
        {
            &&& #[trigger] unstamped.unstamps(before, ids)
            &&& after.tells(unstamped, batch, true)
        };
    assert(unstamped.effects@ =~= before.effects@);
    assert(after.effects@ =~= before.effects@ + sent);
    assert(gained(after, before) =~= sent);
    assert(after.effects@.take(before.effects@.len() as int) =~= before.effects@);
    servers::server_at_is_first(list, w.language.server);
    assert(list[s].key == w.language.server);
    assert(servers::server_at(list, w.language.server) == Some(s));
    assert(servers::hears(list, w));
    let told = is_news(list, batch.take(i), w);
    assert(stands_once(sent, told));
    assert forall|e: int| 0 <= e < sent.len() && (#[trigger] sent[e] == Effect::DidChange(b.id)
        || sent[e] == Effect::DidOpen(b.id)) implies sent[e] == told by {
        let m = choose|m: int|
            {
                &&& 0 <= m < batch.len()
                &&& servers::hears(list, #[trigger] batch[m])
                &&& sent[e] == is_news(list, batch.take(m), batch[m])
            };
        assert(batch[m].id == batch[i].id);
        assert(m == i);
    }
    if forall|other: Buffer|
        {
            #[trigger] panes::is_open(before.state, other) && other != b && other.path is Some
                ==> !path::same_path(other.path->0@, b.path->0@)
        } {
        let earlier = batch.take(i);
        assert forall|j: int| 0 <= j < earlier.len() implies !servers::same_wanted(
            #[trigger] earlier[j],
            w,
        ) by {
            assert(earlier[j] == batch[j]);
            assert(batch[j].id != batch[i].id);
            document_is_open(before.state, batch[j].id);
            let other = panes::document(before.state, batch[j].id)->0;
            assert(panes::is_open(before.state, other));
        }
    }
}

/// What is taken out of a map is what was asked for, and the rest stays.
pub(crate) proof fn the_rest_stays(map: Map<u64, u64>, ids: Seq<u64>)
    ensures
        forall|id: u64|
            #![trigger servers::without_ids(map, ids).contains_key(id)]
            servers::without_ids(map, ids).contains_key(id) == (map.contains_key(id)
                && !ids.contains(id)),
        forall|id: u64|
            #![trigger servers::without_ids(map, ids)[id]]
            map.contains_key(id) && !ids.contains(id) ==> servers::without_ids(map, ids)[id]
                == map[id],
    decreases ids.len(),
{
    if ids.len() > 0 {
        let front = ids.drop_last();
        the_rest_stays(map, front);
        assert forall|id: u64| #[trigger]
            ids.contains(id) == (front.contains(id) || id == ids.last()) by {
            if front.contains(id) {
                let k = front.index_of(id);
                assert(ids[k] == id);
            }
            if ids.contains(id) && id != ids.last() {
                let k = ids.index_of(id);
                assert(front[k] == id);
            }
        }
        let less = servers::without_ids(map, front);
        assert forall|id: u64|
            #![trigger servers::without_ids(map, ids).contains_key(id)]
            servers::without_ids(map, ids).contains_key(id) == (map.contains_key(id)
                && !ids.contains(id)) by {
            assert(less.contains_key(id) == (map.contains_key(id) && !front.contains(id)));
        }
        assert forall|id: u64|
            #![trigger servers::without_ids(map, ids)[id]]
            map.contains_key(id) && !ids.contains(id) implies servers::without_ids(map, ids)[id]
            == map[id] by {
            assert(less.contains_key(id));
            assert(less[id] == map[id]);
        }
    }
}

/// A pause takes off the stamps it sends and no others: a document still being
/// typed in keeps its stamp and is not sent, and no document changes.
pub proof fn what_is_still_typed_waits(
    after: EditorView,
    before: EditorView,
    pause: u64,
    now: u64,
    r: int,
)
    requires
        before.state.wf(),
        after.flushes(before, pause, now),
        0 <= r < before.state.servers.dirty.rows@.len(),
    ensures
        ({
            let (id, at) = before.state.servers.dirty.rows@[r];
            let left = after.state.servers.dirty@;
            &&& is_due(before.state, r, pause, now) ==> !left.contains_key(id)
            &&& !is_due(before.state, r, pause, now) ==> {
                &&& left.contains_key(id)
                &&& left[id] == at
                &&& !gained(after, before).contains(Effect::DidChange(id))
                &&& !gained(after, before).contains(Effect::DidOpen(id))
            }
        }),
        after.state.pane == before.state.pane,
        after.state.panes == before.state.panes,
{
    let table = before.state.servers.dirty;
    let rows = table.rows@;
    let list = before.state.servers.list@;
    let ids = servers::due_ids(rows, pause, now);
    due_ids_hold(rows, pause, now);
    table.row_is_its_own(r);
    let id = rows[r].0;
    assert(is_due(before.state, r, pause, now) == ids.contains(id)) by {
        if ids.contains(id) {
            let k = ids.index_of(id);
            assert(in_due_row(rows, ids[k], pause, now));
            let q = choose|q: int|
                {
                    &&& 0 <= q < rows.len()
                    &&& (#[trigger] rows[q]).0 == id
                    &&& (pause == 0 || now - rows[q].1 >= pause)
                };
            if q < r {
                assert(rows[q].0 != rows[r].0);
            } else if r < q {
                assert(rows[r].0 != rows[q].0);
            }
        }
    }
    the_rest_stays(table@, ids);
    if ids.len() > 0 {
        let batch = servers::batch_for(before.state, ids);
        batch_holds(before.state, ids);
        news_holds(list, batch);
        let sent = servers::news(list, batch, true);
        let unstamped = choose|unstamped: EditorView|
            {
                &&& #[trigger] unstamped.unstamps(before, ids)
                &&& after.tells(unstamped, batch, true)
            };
        assert(unstamped.effects@ =~= before.effects@);
        assert(gained(after, before) =~= sent);
        if !ids.contains(id) {
            assert forall|e: int| 0 <= e < sent.len() implies #[trigger] sent[e]
                != Effect::DidChange(id) && sent[e] != Effect::DidOpen(id) by {
                let m = choose|m: int|
                    {
                        &&& 0 <= m < batch.len()
                        &&& servers::hears(list, #[trigger] batch[m])
                        &&& sent[e] == is_news(list, batch.take(m), batch[m])
                    };
                assert(ids.contains(batch[m].id));
            }
        }
    } else {
        assert(gained(after, before) =~= Seq::<Effect>::empty());
    }
}

/// An edit of a document that has a file is noted for its server and for the
/// marks beside it, with the time; nothing is forgotten, and nothing else is
/// noted.
pub proof fn an_edit_is_noted(after: EditorView, before: EditorView, now: u64, id: u64)
    requires
        before.state.wf(),
        after.follows_edit(before, now),
    ensures
        ({
            let front = before.state.pane.docs.list@[before.state.pane.docs.active as int];
            if front.path is Some && id == front.id {
                &&& after.state.servers.dirty@.contains_key(id)
                &&& after.state.servers.dirty@[id] == now
                &&& after.state.gutter.dirty@.contains_key(id)
                &&& after.state.gutter.dirty@[id] == now
            } else {
                &&& after.state.servers.dirty@.contains_key(id)
                    == before.state.servers.dirty@.contains_key(id)
                &&& before.state.servers.dirty@.contains_key(id)
                    ==> after.state.servers.dirty@[id] == before.state.servers.dirty@[id]
                &&& after.state.gutter.dirty@.contains_key(id)
                    == before.state.gutter.dirty@.contains_key(id)
                &&& before.state.gutter.dirty@.contains_key(id)
                    ==> after.state.gutter.dirty@[id] == before.state.gutter.dirty@[id]
            }
        }),
        after.state.pane.docs == before.state.pane.docs,
        gained(after, before).contains(Effect::Run(Task::Reparse)),
        gained(after, before).contains(Effect::ScrollToCursor),
        after.ivars.needs_redraw,
{
    let sent = gained(after, before);
    let work = before.edit_work();
    assert(sent =~= work + before.pumping(now));
    assert(work[0] == Effect::Run(Task::Reparse));
    assert(sent[0] == work[0]);
    let k = if crate::edit::list_stays(before.state) {
        2int
    } else {
        1int
    };
    assert(work[k] == Effect::ScrollToCursor);
    assert(sent[k] == work[k]);
}

/// The same of a document that was reloaded: its server and its marks start
/// over.
pub proof fn a_reload_is_noted(after: EditorView, before: EditorView, now: u64)
    requires
        before.state.wf(),
        after.restarts(before, now),
        before.state.pane.docs.front().path is Some,
    ensures
        ({
            let id = before.state.pane.docs.list@[before.state.pane.docs.active as int].id;
            &&& after.state.servers.dirty@.contains_key(id)
            &&& after.state.servers.dirty@[id] == now
            &&& after.state.gutter.dirty@.contains_key(id)
            &&& after.state.gutter.dirty@[id] == now
        }),
        after.state.hints.completion is None,
        after.state.pane.docs == before.state.pane.docs,
{
}

/// Text that is committed while the document has the keyboard goes into it,
/// once, unless the document is only previewed, and the key and the text are
/// passed on. A control character is no text.
pub proof fn committed_text_is_put_in(
    after: EditorView,
    before: EditorView,
    put: String,
    text: String,
    replaced: Option<(usize, usize)>,
)
    requires
        after.commits(before, put, text, replaced),
        crate::state::focus_of(before.state.target()) == crate::state::Focus::Document,
    ensures
        after.state == before.state,
        ({
            let sent = gained(after, before);
            let target = before.state.target();
            &&& sent.len() >= 2
            &&& sent[sent.len() - 2] == Effect::Run(Task::LspAfterKey(true))
            &&& sent[sent.len() - 1] == Effect::Typed(text)
            &&& put@.len() == 1 && !before.state.pane.docs.front().preview_file ==> stands_once(
                sent,
                Effect::InsertPaired(put),
            )
            &&& put@.len() > 1 && !before.state.pane.docs.front().preview_file ==> stands_once(
                sent,
                Effect::Insert(target, put),
            )
            &&& before.state.pane.docs.front().preview_file ==> sent.len() == 2
        }),
{
    let sent = gained(after, before);
    let target = before.state.target();
    let first = crate::edit::replacing(target, replaced);
    let second = crate::edit::putting(target, put);
    let last = seq![Effect::Run(Task::LspAfterKey(true)), Effect::Typed(text)];
    if before.state.pane.docs.front().preview_file {
        assert(sent =~= Seq::<Effect>::empty() + last);
    } else {
        assert(sent =~= first + second + last);
        let k = first.len() as int;
        if put@.len() > 0 {
            assert(sent[k] == second[0]);
            assert(forall|j: int| 0 <= j < sent.len() && j != k ==> #[trigger] sent[j] != sent[k]);
        }
    }
}

/// What a server has been told of, it stays told of when more is sent.
proof fn what_was_heard_stays_heard(
    after: EditorView,
    before: EditorView,
    now: u64,
    s: int,
    b: Buffer,
)
    requires
        before.state.wf(),
        after.flushes(before, 0, now),
        serves(before.state.servers.list@, s, b),
    ensures
        serves(after.state.servers.list@, s, b),
        after.state.servers.list@[s].formats == before.state.servers.list@[s].formats,
        forall|place: Seq<char>| #[trigger]
            has_heard_of(before.state.servers.list@[s], place) ==> has_heard_of(
                after.state.servers.list@[s],
                place,
            ),
{
    let list = before.state.servers.list@;
    let rows = before.state.servers.dirty.rows@;
    let ids = servers::due_ids(rows, 0, now);
    if ids.len() > 0 {
        let batch = servers::batch_for(before.state, ids);
        let unstamped = choose|unstamped: EditorView|
            {
                &&& #[trigger] unstamped.unstamps(before, ids)
                &&& after.tells(unstamped, batch, true)
            };
        let then = after.state.servers.list@;
        assert(unstamped.state.servers.list@ == list);
        assert(servers::all_heard(then, list, batch));
        assert forall|j: int| 0 <= j < list.len() implies (#[trigger] then[j]).key == list[j].key by {
            assert(servers::has_heard(then[j], list[j], list, j, batch));
        }
        assert(servers::has_heard(then[s], list[s], list, s, batch));
        assert forall|place: Seq<char>| #[trigger] has_heard_of(list[s], place) implies has_heard_of(
            then[s],
            place,
        ) by {
            let k = choose|k: int|
                0 <= k < list[s].known@.len() && path::same_path(
                    (#[trigger] list[s].known@[k])@,
                    place,
                );
            assert(list[s].is_told(place));
            assert(then[s].is_told(place));
            let m = choose|m: int|
                0 <= m < then[s].known@.len() && path::same_path(
                    (#[trigger] then[s].known@[m])@,
                    place,
                );
            assert(path::same_path(then[s].known@[m]@, place));
        }
    }
}

/// A question goes to a server that is ready and knows the document, after
/// everything that was typed: nothing is left unsent, and the question, about
/// this file and this place, comes last.
pub proof fn a_question_is_about_the_text_as_it_is(
    after: EditorView,
    before: EditorView,
    ask: ServerAsk,
    at: Position,
    sent: bool,
    now: u64,
    s: int,
)
    requires
        before.state.wf(),
        after.asks_server(before, ask, at, sent, now),
        before.state.pane.docs.front().path is Some,
        serves(before.state.servers.list@, s, before.state.pane.docs.front()),
        has_heard_of(before.state.servers.list@[s], before.state.pane.docs.front().path->0@),
    ensures
        sent,
        after.state.servers.dirty@.dom() == Set::<u64>::empty(),
        after.state.pane == before.state.pane,
        ({
            let place = before.state.pane.docs.front().path->0;
            match ask {
                ServerAsk::References => after.effects@.len() > before.effects@.len()
                    && after.effects@.last() == Effect::References(place, at),
                ServerAsk::Signature => after.effects@.len() > before.effects@.len()
                    && after.effects@.last() == Effect::Signature(place, at),
                ServerAsk::Format(width, spaces, save) => before.state.servers.list@[s].formats
                    ==> after.effects@.len() > before.effects@.len() && after.effects@.last()
                    == Effect::Format(place, width, spaces, save),
            }
        }),
{
    let flushed = choose|flushed: EditorView|
        {
            &&& #[trigger] flushed.flushes(before, 0, now)
            &&& after.puts(flushed, ask, at, sent, now)
        };
    let front = before.state.pane.docs.front();
    servers::flushing_now_leaves_nothing(before, flushed, now);
    what_was_heard_stays_heard(flushed, before, now, s, front);
    only_adds(flushed, before, 0, now);
    let list = flushed.state.servers.list@;
    servers::server_at_is_first(list, front.language->0.server);
    assert(list[s].key == front.language->0.server);
    assert(servers::server_at(list, front.language->0.server) == Some(s));
    assert(has_heard_of(list[s], front.path->0@));
    assert(list[s].is_told(front.path->0@));
    assert(flushed.state.pane == before.state.pane);
    let put = crate::ask::question(ask, list[s].formats, front.path->0, at);
    assert(after.effects@ == flushed.effects@ + put);
    if put.len() > 0 {
        assert(after.effects@.last() == put[0]);
    }
}

/// Sending what is due adds to what is asked for.
proof fn only_adds(after: EditorView, before: EditorView, pause: u64, now: u64)
    requires
        after.flushes(before, pause, now),
    ensures
        after.effects@.len() >= before.effects@.len(),
        after.effects@.take(before.effects@.len() as int) == before.effects@,
        after.state.pane == before.state.pane,
        after.state.panes == before.state.panes,
{
    let ids = servers::due_ids(before.state.servers.dirty.rows@, pause, now);
    if ids.len() > 0 {
        let batch = servers::batch_for(before.state, ids);
        let unstamped = choose|unstamped: EditorView|
            {
                &&& #[trigger] unstamped.unstamps(before, ids)
                &&& after.tells(unstamped, batch, true)
            };
        assert(unstamped.effects@ =~= before.effects@);
    }
    assert(after.effects@.take(before.effects@.len() as int) =~= before.effects@);
}

/// Where something is defined, or what it is, is asked of the server that is
/// ready and knows the document, about this file and this place.
pub proof fn a_symbol_is_asked_about_where_it_is(
    defined: EditorView,
    hovered: EditorView,
    before: EditorView,
    at: Position,
    now: u64,
    s: int,
)
    requires
        before.state.wf(),
        defined.asks_definition(before, at, now),
        hovered.asks_hover(before, at),
        before.state.pane.docs.front().path is Some,
        serves(before.state.servers.list@, s, before.state.pane.docs.front()),
        has_heard_of(before.state.servers.list@[s], before.state.pane.docs.front().path->0@),
    ensures
        defined.effects@ == before.effects@.push(
            Effect::Definition(before.state.pane.docs.front().path->0, at),
        ),
        hovered.effects@ == before.effects@.push(
            Effect::Hover(before.state.pane.docs.front().path->0, at),
        ),
        defined.state == before.state,
        hovered.state == before.state,
{
    let front = before.state.pane.docs.front();
    let list = before.state.servers.list@;
    servers::server_at_is_first(list, front.language->0.server);
    assert(list[s].key == front.language->0.server);
    assert(servers::server_at(list, front.language->0.server) == Some(s));
    assert(list[s].is_told(front.path->0@));
}

/// A server that says it is ready is ready, with what it says it can do; the
/// others stay as they were.
pub proof fn a_ready_server_is_ready(
    after: EditorView,
    before: EditorView,
    event: ServerEvent,
    now: u64,
    s: int,
)
    requires
        after.takes_event(before, event, now),
        event is Ready,
        0 <= s < before.state.servers.list@.len(),
        before.state.servers.list@[s].key == event->Ready_0,
        forall|j: int| 0 <= j < s ==> (#[trigger] before.state.servers.list@[j]).key != event->Ready_0,
    ensures
        after.state.servers.list@.len() == before.state.servers.list@.len(),
        after.state.servers.list@[s].ready,
        after.state.servers.list@[s].formats == event->Ready_1,
        after.state.servers.list@[s].triggers == event->Ready_2,
        after.state.servers.list@[s].key == before.state.servers.list@[s].key,
        after.state.servers.list@[s].known == before.state.servers.list@[s].known,
        forall|j: int|
            0 <= j < before.state.servers.list@.len() && j != s ==> after.state.servers.list@[j]
                == #[trigger] before.state.servers.list@[j],
        after.state.pane == before.state.pane,
{
    servers::server_at_is_first(before.state.servers.list@, event->Ready_0);
}

/// The edits of a file that is open go into its tab, all of them, and leave it
/// unsaved; no other document changes.
pub proof fn edits_are_made_in_the_tab_of_the_file(
    place: FilePlace,
    after: State,
    before: State,
    edits: Seq<Edit>,
    i: int,
)
    requires
        before.wf(),
        place.edits_in(after, before, edits),
        0 <= i < before.pane.docs.list@.len(),
        before.pane.docs.list@[i].path matches Some(own) && path::same_path(own@, place.path@),
        forall|j: int| 0 <= j < i ==> !place.is_of(#[trigger] before.pane.docs.list@[j]),
        buffer::in_order(before.pane.docs.list@[i].text@, edits, 0),
    ensures
        after.pane.docs.list@.len() == before.pane.docs.list@.len(),
        buffer::holds_edits(
            after.pane.docs.list@[i].text@,
            before.pane.docs.list@[i].text@,
            edits,
            0,
        ),
        after.pane.docs.list@[i].dirty,
        after.pane.docs.list@[i].path == before.pane.docs.list@[i].path,
        forall|j: int|
            0 <= j < before.pane.docs.list@.len() && j != i ==> after.pane.docs.list@[j]
                == #[trigger] before.pane.docs.list@[j],
        after.panes == before.panes,
{
    let list = before.pane.docs.list@;
    documents::first_where_unique(list, |b: Buffer| place.is_of(b), i);
    buffer::every_edit_is_carried_out(list[i].text@, edits, 0);
}

/// A rename is made in the tab of a file that is open and can be written, and
/// is accounted for there; a file that is not open was renamed on disk, and
/// the documents stay.
pub proof fn a_rename_reaches_the_open_file(
    after: State,
    before: State,
    f: FileEdits,
    came: Renamed,
    i: int,
)
    requires
        before.wf(),
        crate::rename::file_renamed(after, before, f, came),
        !f.empty,
        f.ranges is Some,
        f.ranges->0@.len() > 0,
        0 <= i < before.pane.docs.list@.len(),
        before.pane.docs.list@[i].path matches Some(own) && path::same_path(own@, f.place.path@),
        forall|j: int| 0 <= j < i ==> !f.place.is_of(#[trigger] before.pane.docs.list@[j]),
        !before.pane.docs.list@[i].read_only,
        buffer::in_order(before.pane.docs.list@[i].text@, f.ranges->0@, 0),
    ensures
        came == Renamed::Open(before.pane.docs.list@[i].id),
        buffer::holds_edits(
            after.pane.docs.list@[i].text@,
            before.pane.docs.list@[i].text@,
            f.ranges->0@,
            0,
        ),
        after.pane.docs.list@[i].dirty,
{
    let list = before.pane.docs.list@;
    documents::first_where_unique(list, |b: Buffer| f.place.is_of(b), i);
    buffer::every_edit_is_carried_out(list[i].text@, f.ranges->0@, 0);
    edits_are_made_in_the_tab_of_the_file(f.place, after, before, f.ranges->0@, i);
}

/// Replacing in the project replaces every match in the tab of a file that is
/// open and can be written, and counts them.
pub proof fn replacing_reaches_the_open_file(
    after: State,
    before: State,
    f: FileMatches,
    came: Replaced,
    i: int,
)
    requires
        before.wf(),
        crate::replacing::file_replaced(after, before, f, came),
        f.found is Some,
        0 < f.found->0@.len() <= usize::MAX,
        0 <= i < before.pane.docs.list@.len(),
        before.pane.docs.list@[i].path matches Some(own) && path::same_path(own@, f.place.path@),
        forall|j: int| 0 <= j < i ==> !f.place.is_of(#[trigger] before.pane.docs.list@[j]),
        !before.pane.docs.list@[i].read_only,
        buffer::in_order(before.pane.docs.list@[i].text@, f.found->0@, 0),
    ensures
        came matches Replaced::Open(id, n) && id == before.pane.docs.list@[i].id && n
            == f.found->0@.len(),
        buffer::holds_edits(
            after.pane.docs.list@[i].text@,
            before.pane.docs.list@[i].text@,
            f.found->0@,
            0,
        ),
        after.pane.docs.list@[i].dirty,
{
    let list = before.pane.docs.list@;
    documents::first_where_unique(list, |b: Buffer| f.place.is_of(b), i);
    buffer::every_edit_is_carried_out(list[i].text@, f.found->0@, 0);
    edits_are_made_in_the_tab_of_the_file(f.place, after, before, f.found->0@, i);
}

/// The formatter's edits are all made in the document in front, which is
/// noted for its server.
pub proof fn a_format_makes_every_edit(
    after: EditorView,
    before: EditorView,
    ranges: Vec<Edit>,
    now: u64,
)
    requires
        before.state.wf(),
        after.takes_format(before, Some(ranges), now),
        ranges@.len() > 0,
        !before.state.pane.docs.front().read_only,
        buffer::in_order(before.state.pane.docs.front().text@, ranges@, 0),
    ensures
        ({
            let at = before.state.pane.docs.active as int;
            let was = before.state.pane.docs.list@[at];
            let is = after.state.pane.docs.list@[at];
            &&& buffer::holds_edits(is.text@, was.text@, ranges@, 0)
            &&& is.dirty
            &&& after.state.servers.dirty@.contains_key(was.id)
            &&& after.state.servers.dirty@[was.id] == now
        }),
        after.state.servers.formatting is None,
{
    buffer::every_edit_is_carried_out(before.state.pane.docs.front().text@, ranges@, 0);
}

/// Return in the line field puts the caret at the start of the line that is
/// named, counted from one: as many newlines come before it as lines do, the
/// last of them right before it. The field closes, and the text stays.
pub proof fn the_named_line_is_gone_to(
    after: EditorView,
    before: EditorView,
    event: KeyEvent,
    handled: bool,
    now: u64,
    field: Field,
    n: usize,
)
    requires
        before.state.wf(),
        after.handles_goto_key(before, event, handled, now),
        keys::plain_code(event.code) == keys::RETURN,
        !event.flags.command,
        before.state.fields.goto_line == Some(field),
        crate::text::number_in(crate::text::trimmed(field.text@)) == Some(n),
        0 < n <= buffer::newlines(before.state.pane.docs.front().text@) + 1,
    ensures
        handled,
        after.state.fields.goto_line is None,
        ({
            let at = before.state.pane.docs.active as int;
            let text = before.state.pane.docs.list@[at].text@;
            let is = after.state.pane.docs.list@[at];
            &&& is.text@ == text
            &&& is.anchor == is.cursor
            &&& 0 <= is.cursor <= text.len()
            &&& buffer::newlines(text.take(is.cursor as int)) == n - 1
            &&& is.cursor > 0 ==> text[is.cursor - 1] == 10
        }),
        gained(after, before).contains(Effect::ScrollToCursor),
{
    let front = before.state.pane.docs.front();
    buffer::a_line_is_found_by_its_number(front.text@, (n - 1) as nat);
    let sent = gained(after, before);
    assert(sent =~= seq![Effect::ScrollToCursor] + before.pumping(now));
    assert(sent[0] == Effect::ScrollToCursor);
}

/// Closing a tab takes that document away and no other, in the same order.
/// Another document in front stays in front; when the one in front goes, the
/// next comes, or the last when there is no next.
pub proof fn closing_takes_one_tab_away(
    after: Documents,
    before: Documents,
    index: int,
    blank: Buffer,
)
    requires
        before.wf(),
        tabs::closes(after, before, index, blank),
        0 <= index < before.list@.len(),
        before.list@.len() > 1,
    ensures
        after.list@.len() == before.list@.len() - 1,
        forall|i: int| 0 <= i < index ==> after.list@[i] == #[trigger] before.list@[i],
        forall|i: int|
            index < i < before.list@.len() ==> after.list@[i - 1] == #[trigger] before.list@[i],
        index != before.active ==> after.list@[after.active as int]
            == before.list@[before.active as int],
        index == before.active && index + 1 < before.list@.len() ==> after.list@[after.active as int]
            == before.list@[index + 1],
        index == before.active && index + 1 == before.list@.len() ==> after.list@[after.active as int]
            == before.list@[index - 1],
        after.active < after.list@.len(),
{
}

/// A closed file is said to be closed to the servers, and the suggestions go.
pub proof fn a_closed_file_is_said_to_be_closed(
    after: EditorView,
    before: EditorView,
    index: int,
    blank: Buffer,
    now: u64,
)
    requires
        before.state.wf(),
        after.finishes_close(before, index, blank, now),
        0 <= index < before.state.pane.docs.list@.len(),
        before.state.pane.docs.list@[index].path is Some,
    ensures
        after.effects@.len() > before.effects@.len(),
        after.effects@[before.effects@.len() as int] == Effect::DidClose(
            before.state.pane.docs.list@[index].path->0,
        ),
        after.state.hints.completion is None,
{
    let closed = choose|closed: EditorView|
        {
            &&& tabs::closes(closed.state.pane.docs, before.state.pane.docs, index, blank)
            &&& #[trigger] closed.becomes(
                before,
                before.state.after_closing(closed.state.pane.docs),
                tabs::goodbye(before.state.pane.docs, index),
            )
            &&& if closed.state.pane.docs.at_home() && closed.state.panes@.len() > 0 {
                after.drops_pane(closed, now)
            } else {
                after.shows(
                    closed,
                    closed.state,
                    seq![Effect::SyncTitle, Effect::Run(Task::Reparse)],
                    now,
                )
            }
        };
    assert(closed.effects@[before.effects@.len() as int] == Effect::DidClose(
        before.state.pane.docs.list@[index].path->0,
    ));
}

/// A file that is not open comes to the front as it was read, and everything
/// that was open stays open, in order, unless that was nothing at all.
pub proof fn an_opened_file_comes_to_the_front(
    after: EditorView,
    before: EditorView,
    b: Buffer,
    place: Seq<char>,
    key: Seq<char>,
    limit: Seq<char>,
    now: u64,
)
    requires
        before.state.wf(),
        after.opens_here(before, Opened::File(b), place, key, limit, now),
        forall|i: int|
            0 <= i < before.state.pane.docs.list@.len() ==> !(
            (#[trigger] before.state.pane.docs.list@[i]).path matches Some(own) && path::same_path(
                own@,
                key,
            )),
    ensures
        ({
            let was = before.state.pane.docs.list@;
            let is = after.state.pane.docs.list@;
            &&& is[after.state.pane.docs.active as int] == b
            &&& is.last() == b
            &&& (was.len() > 1 || was[0].path is Some || was[0].label is Some || was[0].dirty
                || was[0].text@.len() > 0)
                ==> is.len() == was.len() + 1 && forall|i: int|
                0 <= i < was.len() ==> is[i] == #[trigger] was[i]
        }),
        after.state.panes == before.state.panes,
        gained(after, before).contains(Effect::Run(Task::LspSyncOpen)),
{
    documents::first_where_none(
        before.state.pane.docs.list@,
        |d: Buffer| d.is_at(key),
    );
    assert(gained(after, before)[0] == Effect::Run(Task::LspSyncOpen));
}

/// A file that is open in the focused pane comes to the front as it is there:
/// nothing is read over it.
pub proof fn an_open_file_comes_to_the_front_as_it_is(
    after: EditorView,
    before: EditorView,
    found: Opened,
    place: Seq<char>,
    key: Seq<char>,
    limit: Seq<char>,
    now: u64,
    i: int,
)
    requires
        before.state.wf(),
        after.opens_here(before, found, place, key, limit, now),
        0 <= i < before.state.pane.docs.list@.len(),
        before.state.pane.docs.list@[i].path matches Some(own) && path::same_path(own@, key),
        forall|j: int|
            0 <= j < i ==> !((#[trigger] before.state.pane.docs.list@[j]).path matches Some(own)
                && path::same_path(own@, key)),
    ensures
        after.state.pane.docs.list == before.state.pane.docs.list,
        after.state.pane.docs.active == i,
{
    documents::first_where_unique(
        before.state.pane.docs.list@,
        |d: Buffer| d.is_at(key),
        i,
    );
    assert(i < before.state.pane.docs.list.len());
}

/// The tab at `x` is the first that reaches over it.
pub proof fn the_tab_at_a_point_reaches_over_it(hits: Seq<TabHit>, x: i32)
    ensures
        match tabs::tab_under(hits, x) {
            Some(i) => 0 <= i < hits.len() && hits[i].x0 <= x < hits[i].x1 && forall|j: int|
                0 <= j < i ==> !((#[trigger] hits[j]).x0 <= x < hits[j].x1),
            None => forall|j: int|
                0 <= j < hits.len() ==> !((#[trigger] hits[j]).x0 <= x < hits[j].x1),
        },
    decreases hits.len(),
{
    if hits.len() > 0 {
        let head = hits.drop_last();
        the_tab_at_a_point_reaches_over_it(head, x);
        assert(forall|j: int| 0 <= j < head.len() ==> head[j] == hits[j]);
    }
}

/// The pane that gets the keyboard is the one that was asked for, as it was,
/// and the one that had it is kept among the others, as it was.
pub proof fn a_focused_pane_is_the_one_asked_for(
    after: EditorView,
    before: EditorView,
    index: int,
    now: u64,
)
    requires
        before.state.wf(),
        after.focuses(before, index, now),
        0 <= index <= before.state.panes@.len(),
    ensures
        ({
            let all = before.state.panes@.insert(
                before.state.focused_pane as int,
                before.state.pane,
            );
            &&& after.state.pane == all[index]
            &&& after.state.panes@ == all.remove(index)
            &&& after.state.focused_pane == index
        }),
        after.state.fields.find is None,
{
    let s = before.state;
    assert(panes::every_pane(s) =~= s.panes@.insert(s.focused_pane as int, s.pane));
}

/// When a pane goes, the documents of the others stay, each pane as it was.
pub proof fn a_pane_goes_alone(after: EditorView, before: EditorView, now: u64)
    requires
        before.state.wf(),
        before.state.panes@.len() > 0,
        after.drops_pane(before, now),
    ensures
        ({
            let focus = if before.state.focused_pane > 0 {
                before.state.focused_pane - 1
            } else {
                0
            };
            &&& after.state.pane == before.state.panes@[focus]
            &&& after.state.panes@ == before.state.panes@.remove(focus)
            &&& after.state.focused_pane == focus
        }),
{
    panes::panes_come_back(before.state);
}

/// The first report about a document is what is known of it.
proof fn the_first_report_counts(reports: Seq<DiskReport>, id: u64, r: int)
    requires
        0 <= r < reports.len(),
        reports[r].id == id,
        forall|j: int| 0 <= j < r ==> (#[trigger] reports[j]).id != id,
    ensures
        disk::report_of(reports, id) == reports[r].found,
    decreases reports.len(),
{
    if r > 0 {
        assert(reports[0].id != id);
        let rest = reports.drop_first();
        assert(forall|j: int| 0 <= j < rest.len() ==> rest[j] == reports[j + 1]);
        the_first_report_counts(rest, id, r - 1);
    }
}

/// A document without changes takes in what another program wrote, and is
/// then as it is on disk; one with changes keeps every byte of them, and is
/// marked once.
pub proof fn a_file_follows_the_disk_unless_it_was_changed(
    after: Buffer,
    before: Buffer,
    reports: Seq<DiskReport>,
    r: int,
    bytes: Vec<u8>,
)
    requires
        disk::settles(after, before, disk::report_of(reports, before.id)),
        0 <= r < reports.len(),
        reports[r].id == before.id,
        forall|j: int| 0 <= j < r ==> (#[trigger] reports[j]).id != before.id,
        reports[r].found == DiskState::Changed(Some(bytes)),
        disk::name_of(before) is Some,
    ensures
        !before.dirty ==> after.text@ == bytes@ && !after.dirty && !after.conflict_noticed,
        before.dirty ==> after.text == before.text && after.dirty && after.conflict_noticed,
        after.id == before.id,
        after.path == before.path,
{
    the_first_report_counts(reports, before.id, r);
}

/// Going back to the disk makes the document in front what was read, without
/// unsaved changes; when nothing could be read it stays.
pub proof fn going_back_takes_what_was_read(
    after: EditorView,
    before: EditorView,
    outcome: Result<Vec<u8>, String>,
)
    requires
        before.state.wf(),
        after.takes_disk(before, outcome),
    ensures
        ({
            let at = before.state.pane.docs.active as int;
            match outcome {
                Ok(bytes) => after.state.pane.docs.list@[at].text@ == bytes@
                    && !after.state.pane.docs.list@[at].dirty && forall|i: int|
                    0 <= i < before.state.pane.docs.list@.len() && i != at
                        ==> after.state.pane.docs.list@[i]
                        == #[trigger] before.state.pane.docs.list@[i],
                Err(_) => after.state.pane.docs == before.state.pane.docs,
            }
        }),
{
}

/// A save puts the saved document in front in place of what was there, tells
/// the server after everything that was typed, and asks for a format exactly
/// when saving is to format and this is not already the formatted save.
pub proof fn a_save_is_told(
    after: EditorView,
    before: EditorView,
    saved: Buffer,
    settings: bool,
    now: u64,
)
    requires
        before.state.wf(),
        after.has_saved(before, saved, settings, now),
        saved.path is Some,
    ensures
        after.state.pane.docs.list@[before.state.pane.docs.active as int] == saved,
        forall|i: int|
            0 <= i < before.state.pane.docs.list@.len() && i != before.state.pane.docs.active
                ==> after.state.pane.docs.list@[i] == #[trigger] before.state.pane.docs.list@[i],
        gained(after, before).contains(Effect::DidSave(saved.path->0)),
        gained(after, before).contains(Effect::Run(Task::LspFlushChanges)),
        gained(after, before).contains(Effect::RefreshGit),
        gained(after, before).contains(Effect::Run(Task::FormatDocument(true))) == (
        before.state.servers.format_on_save && !before.state.servers.saving_formatted),
        settings ==> gained(after, before).contains(Effect::Run(Task::ApplySettings)),
{
    let sent = gained(after, before);
    let place = saved.path->0;
    let first = seq![Effect::RefreshGit, Effect::PokeIndexer];
    let second = if settings {
        seq![Effect::Run(Task::ApplySettings)]
    } else {
        Seq::empty()
    };
    let third = if path::sets_ignore_rules(place@) {
        match before.state.side.tree.root {
            Some(root) => seq![Effect::ReadIgnored(root)],
            None => Seq::empty(),
        }
    } else {
        Seq::empty()
    };
    let fourth = seq![
        Effect::ResumeDisplayLink,
        Effect::Run(Task::LspFlushChanges),
        Effect::Run(Task::LspSyncOpen),
        Effect::DidSave(place),
    ];
    let fifth = if before.state.servers.format_on_save && !before.state.servers.saving_formatted {
        seq![Effect::Run(Task::FormatDocument(true))]
    } else {
        Seq::empty()
    };
    let last = seq![Effect::SyncTitle];
    assert(sent =~= first + (second + third + fourth + fifth) + last);
    let k = (first.len() + second.len() + third.len()) as int;
    assert(sent[0] == Effect::RefreshGit);
    if settings {
        assert(sent[2] == Effect::Run(Task::ApplySettings));
    }
    assert(sent[k + 1] == fourth[1]);
    assert(sent[k + 3] == fourth[3]);
    if fifth.len() > 0 {
        assert(sent[k + 4] == fifth[0]);
    }
}

/// The staging control of a file turns staging round; anywhere else on its row
/// the change is shown.
pub proof fn a_click_stages_or_shows(change: usize, staged: bool, panel: GitPanel)
    ensures
        git::click_work(GitSpot::File { change, staged, toggle: true })[0] == Effect::Stage(
            change,
            !staged,
        ),
        git::click_work(GitSpot::File { change, staged, toggle: false })[0]
            == Effect::SelectChange(change),
        git::clicked_panel(panel, GitSpot::File { change, staged, toggle: false }).showing_diff,
        git::clicked_panel(panel, GitSpot::File { change, staged, toggle: true }) == panel,
        git::click_work(GitSpot::Commit)[0] == Effect::Commit,
        git::clicked_panel(panel, GitSpot::Message(None)).focus,
{
}

/// Command-Return commits wherever the keyboard is in source control, and
/// leaves the message as it is.
pub proof fn command_return_commits(
    after: EditorView,
    before: EditorView,
    event: KeyEvent,
    handled: bool,
    now: u64,
)
    requires
        after.handles_git_key(before, event, handled, now),
        event.flags.command,
        event.code == keys::RETURN,
    ensures
        handled,
        after.effects@.len() > before.effects@.len(),
        after.effects@[before.effects@.len() as int] == Effect::Commit,
        after.state == before.state,
{
    assert(git::git_key(before.state.git, event) == git::GitKey::Commit);
}

/// A plain press in the text puts the caret under the pointer, with nothing
/// selected; with Shift the selection reaches there from where it was; twice
/// takes the word, three times the line. The text stays.
pub proof fn a_press_places_the_caret(
    after: EditorView,
    before: EditorView,
    press: Press,
    under: Under,
    now: u64,
)
    requires
        before.state.wf(),
        after.takes_text(before, press, under, now),
        !press.flags.command,
        !press.flags.option,
        under.chip is None,
        under.offset <= before.state.pane.docs.front().text@.len(),
        under.word.0 <= under.word.1 <= before.state.pane.docs.front().text@.len(),
        under.line.0 <= under.line.1 <= before.state.pane.docs.front().text@.len(),
    ensures
        ({
            let at = before.state.pane.docs.active as int;
            let was = before.state.pane.docs.list@[at];
            let is = after.state.pane.docs.list@[at];
            &&& is.text == was.text
            &&& press.clicks <= 1 && !press.flags.shift ==> is.cursor == under.offset && is.anchor
                == under.offset
            &&& press.flags.shift ==> is.cursor == under.offset && is.anchor == was.anchor
            &&& press.clicks == 2 && !press.flags.shift ==> is.anchor == under.word.0 && is.cursor
                == under.word.1
            &&& press.clicks >= 3 && !press.flags.shift ==> is.anchor == under.line.0 && is.cursor
                == under.line.1
        }),
        after.state.hints.completion is None,
        after.state.drag.selecting is Some,
        ({
            let held = after.state.drag.selecting->0;
            &&& press.clicks <= 1 ==> held.start == under.offset && held.end == under.offset
                && held.unit is Character
            &&& press.clicks == 2 ==> held.start == under.word.0 && held.end == under.word.1
                && held.unit is Word
            &&& press.clicks >= 3 ==> held.start == under.line.0 && held.end == under.line.1
                && held.unit is Line
        }),
{
}

/// A Command-press goes to the definition of what is under the pointer, and an
/// Option-press adds a caret there.
pub proof fn a_modified_press_asks_for_more(
    after: EditorView,
    before: EditorView,
    press: Press,
    under: Under,
    now: u64,
)
    requires
        before.state.wf(),
        after.takes_text(before, press, under, now),
        under.chip is None,
        !press.flags.shift,
        under.offset <= before.state.pane.docs.front().text@.len(),
    ensures
        press.flags.command && !press.flags.option ==> {
            &&& after.effects@.len() > before.effects@.len()
            &&& after.effects@[before.effects@.len() as int] == Effect::Run(Task::GotoDefinition)
            &&& after.state.pane.docs.list@[before.state.pane.docs.active as int].cursor
                == under.offset
        },
        press.flags.option && !press.flags.command ==> {
            &&& after.effects@.len() > before.effects@.len()
            &&& after.effects@[before.effects@.len() as int] == Effect::AddCursor(under.offset)
        },
{
}

/// A batch with nothing sent again has each document that its server is to
/// hear of for the first time, and no changes.
proof fn first_news_holds(list: Seq<Server>, batch: Seq<Wanted>)
    ensures
        forall|e: int|
            0 <= e < servers::news(list, batch, false).len() ==> (#[trigger] servers::news(
                list,
                batch,
                false,
            )[e]) is DidOpen,
        forall|i: int|
            0 <= i < batch.len() && servers::hears(list, #[trigger] batch[i])
                && !servers::told_by_then(list, batch.take(i), batch[i]) ==> servers::news(
                list,
                batch,
                false,
            ).contains(Effect::DidOpen(batch[i].id)),
    decreases batch.len(),
{
    if batch.len() > 0 {
        let front = batch.drop_last();
        let n = front.len() as int;
        assert(batch.take(n) =~= front);
        first_news_holds(list, front);
        let head = servers::news(list, front, false);
        let sent = servers::news(list, batch, false);
        assert forall|e: int| 0 <= e < sent.len() implies (#[trigger] sent[e]) is DidOpen by {
            if e < head.len() {
                assert(sent[e] == head[e]);
            }
        }
        assert forall|i: int|
            0 <= i < batch.len() && servers::hears(list, #[trigger] batch[i])
                && !servers::told_by_then(list, batch.take(i), batch[i]) implies sent.contains(
            Effect::DidOpen(batch[i].id),
        ) by {
            if i < n {
                assert(front[i] == batch[i]);
                assert(front.take(i) =~= batch.take(i));
                assert(head.contains(Effect::DidOpen(front[i].id)));
                let k = head.index_of(Effect::DidOpen(front[i].id));
                assert(sent[k] == head[k]);
            } else {
                assert(sent.last() == Effect::DidOpen(batch[i].id));
            }
        }
    }
}

/// Each open document that a server should know is wanted, and what is wanted
/// is an open document.
proof fn the_wanted_are_open(list: Seq<Buffer>)
    ensures
        forall|d: int|
            0 <= d < list.len() && (#[trigger] list[d]).path is Some && list[d].language is Some
                ==> servers::wanted(list).contains(
                Wanted { language: list[d].language->0, path: list[d].path->0, id: list[d].id },
            ),
        forall|i: int|
            0 <= i < servers::wanted(list).len() ==> stands_for(
                #[trigger] servers::wanted(list)[i],
                list,
            ),
    decreases list.len(),
{
    if list.len() > 0 {
        let front = list.drop_last();
        the_wanted_are_open(front);
        let head = servers::wanted(front);
        let all = servers::wanted(list);
        assert forall|d: int|
            0 <= d < list.len() && (#[trigger] list[d]).path is Some && list[d].language is Some implies all.contains(
            Wanted { language: list[d].language->0, path: list[d].path->0, id: list[d].id },
        ) by {
            let w = Wanted { language: list[d].language->0, path: list[d].path->0, id: list[d].id };
            if d < front.len() {
                assert(front[d] == list[d]);
                assert(head.contains(w));
                let k = head.index_of(w);
                assert(all[k] == w);
            } else {
                assert(all.last() == w);
            }
        }
        assert forall|i: int| 0 <= i < all.len() implies stands_for(#[trigger] all[i], list) by {
            if i < head.len() {
                assert(all[i] == head[i]);
                assert(stands_for(head[i], front));
                let d = choose|d: int|
                    {
                        &&& 0 <= d < front.len()
                        &&& (#[trigger] front[d]).path == Some(head[i].path)
                        &&& front[d].id == head[i].id
                        &&& front[d].language == Some(head[i].language)
                    };
                assert(list[d].id == all[i].id);
            } else {
                assert(list[list.len() - 1].id == all[i].id);
            }
        }
    }
}

/// Whether `w` is one of the documents of `list`.
spec fn stands_for(w: Wanted, list: Seq<Buffer>) -> bool {
    exists|d: int|
        {
            &&& 0 <= d < list.len()
            &&& (#[trigger] list[d]).path == Some(w.path)
            &&& list[d].id == w.id
            &&& list[d].language == Some(w.language)
        }
}

/// In a project, a document that its ready server has not heard of is opened
/// there, when nothing else that is open has its path; no change is sent, and
/// every document whose server is ready is then known to it.
pub proof fn every_open_document_is_made_known(
    after: EditorView,
    before: EditorView,
    d: int,
    s: int,
)
    requires
        before.state.wf(),
        after.syncs_open(before),
        before.state.side.tree.root is Some,
        0 <= d < before.state.pane.docs.list@.len(),
        before.state.pane.docs.list@[d].path is Some,
        serves(before.state.servers.list@, s, before.state.pane.docs.list@[d]),
    ensures
        ({
            let b = before.state.pane.docs.list@[d];
            &&& has_heard_of(after.state.servers.list@[s], b.path->0@)
            &&& !has_heard_of(before.state.servers.list@[s], b.path->0@) && (forall|other: Buffer|
                {
                    #[trigger] disk::all_documents(before.state).contains(other) && other.path is Some
                        && path::same_path(other.path->0@, b.path->0@) ==> other == b
                }) ==> gained(after, before).contains(Effect::DidOpen(b.id))
        }),
        forall|id: u64| !#[trigger] gained(after, before).contains(Effect::DidChange(id)),
        after.state.pane == before.state.pane,
{
    let b = before.state.pane.docs.list@[d];
    let all = disk::all_documents(before.state);
    let batch = servers::wanted(all);
    let list = before.state.servers.list@;
    let (started, told) = choose|started: EditorView, told: EditorView|
        {
            &&& #[trigger] started.starts_servers(before, batch)
            &&& #[trigger] told.tells(started, batch, false)
            &&& after.marks(told, told.state, Seq::empty())
        };
    let asked = servers::starts(before.state.servers, batch);
    let sent = servers::news(list, batch, false);
    assert(gained(after, before) =~= asked + sent);
    only_starts(before.state.servers, batch);
    first_news_holds(list, batch);
    the_wanted_are_open(all);
    assert(all[d] == b);
    let w = Wanted { language: b.language->0, path: b.path->0, id: b.id };
    assert(batch.contains(w));
    servers::server_at_is_first(list, w.language.server);
    assert(list[s].key == w.language.server);
    assert(servers::server_at(list, w.language.server) == Some(s));
    let then = after.state.servers.list@;
    assert(servers::has_heard(then[s], list[s], list, s, batch));
    let i = batch.index_of(w);
    assert(path::same_path(batch[i].path@, b.path->0@));
    assert(then[s].is_told(b.path->0@));
    let m = choose|m: int|
        0 <= m < then[s].known@.len() && path::same_path(
            (#[trigger] then[s].known@[m])@,
            b.path->0@,
        );
    assert(path::same_path(then[s].known@[m]@, b.path->0@));
    assert forall|id: u64| !#[trigger] gained(after, before).contains(Effect::DidChange(id)) by {
        if gained(after, before).contains(Effect::DidChange(id)) {
            let e = gained(after, before).index_of(Effect::DidChange(id));
            if e < asked.len() {
                assert(asked[e] is StartServer);
            } else {
                assert(sent[e - asked.len()] is DidOpen);
            }
        }
    }
    if !has_heard_of(list[s], b.path->0@) && (forall|other: Buffer|
        {
            #[trigger] disk::all_documents(before.state).contains(other) && other.path is Some
                && path::same_path(other.path->0@, b.path->0@) ==> other == b
        }) {
        assert(!list[s].is_told(b.path->0@)) by {
            if list[s].is_told(b.path->0@) {
                let k = choose|k: int|
                    0 <= k < list[s].known@.len() && path::same_path(
                        (#[trigger] list[s].known@[k])@,
                        b.path->0@,
                    );
                assert(path::same_path(list[s].known@[k]@, b.path->0@));
            }
        }
        first_of_its_kind(all, batch, b, w);
        let f = choose|f: int|
            {
                &&& 0 <= f < batch.len()
                &&& #[trigger] batch[f] == w
                &&& forall|j: int| 0 <= j < f ==> !servers::same_wanted(#[trigger] batch[j], w)
            };
        let earlier = batch.take(f);
        assert forall|j: int| 0 <= j < earlier.len() implies !servers::same_wanted(
            #[trigger] earlier[j],
            w,
        ) by {
            assert(earlier[j] == batch[j]);
        }
        assert(servers::hears(list, batch[f]));
        assert(sent.contains(Effect::DidOpen(b.id)));
        let e = sent.index_of(Effect::DidOpen(b.id));
        assert(gained(after, before)[asked.len() + e] == Effect::DidOpen(b.id));
    }
}

/// Of what is wanted, only `b` has its path, so that the first with it is `b`.
proof fn first_of_its_kind(all: Seq<Buffer>, batch: Seq<Wanted>, b: Buffer, w: Wanted)
    requires
        batch == servers::wanted(all),
        batch.contains(w),
        b.path == Some(w.path),
        b.language == Some(w.language),
        b.id == w.id,
        forall|other: Buffer|
            {
                #[trigger] all.contains(other) && other.path is Some && path::same_path(
                    other.path->0@,
                    b.path->0@,
                ) ==> other == b
            },
    ensures
        exists|f: int|
            {
                &&& 0 <= f < batch.len()
                &&& #[trigger] batch[f] == w
                &&& forall|j: int| 0 <= j < f ==> !servers::same_wanted(#[trigger] batch[j], w)
            },
{
    the_wanted_are_open(all);
    let f = first_place(batch, w);
    assert(batch[f] == w);
    assert forall|j: int| 0 <= j < f implies !servers::same_wanted(#[trigger] batch[j], w) by {
        if servers::same_wanted(batch[j], w) {
            assert(stands_for(batch[j], all));
            let d = choose|d: int|
                {
                    &&& 0 <= d < all.len()
                    &&& (#[trigger] all[d]).path == Some(batch[j].path)
                    &&& all[d].id == batch[j].id
                    &&& all[d].language == Some(batch[j].language)
                };
            assert(all.contains(all[d]));
            assert(all[d] == b);
            assert(batch[j] == w);
        }
    }
}

/// The first place of `w`.
proof fn first_place(batch: Seq<Wanted>, w: Wanted) -> (f: int)
    requires
        batch.contains(w),
    ensures
        0 <= f < batch.len(),
        batch[f] == w,
        forall|j: int| 0 <= j < f ==> #[trigger] batch[j] != w,
    decreases batch.len(),
{
    let head = batch.drop_last();
    if head.contains(w) {
        let f = first_place(head, w);
        assert(forall|j: int| 0 <= j < f ==> head[j] == #[trigger] batch[j]);
        f
    } else {
        let k = batch.index_of(w);
        if k < head.len() {
            assert(head[k] == w);
        }
        assert forall|j: int| 0 <= j < batch.len() - 1 implies #[trigger] batch[j] != w by {
            if batch[j] == w {
                assert(head[j] == w);
            }
        }
        batch.len() - 1
    }
}

/// What is asked for to start servers is that.
proof fn only_starts(all: Servers, batch: Seq<Wanted>)
    ensures
        forall|e: int|
            0 <= e < servers::starts(all, batch).len() ==> (#[trigger] servers::starts(
                all,
                batch,
            )[e]) is StartServer,
    decreases batch.len(),
{
    if batch.len() > 0 {
        only_starts(all, batch.drop_last());
        let head = servers::starts(all, batch.drop_last());
        let asked = servers::starts(all, batch);
        assert forall|e: int| 0 <= e < asked.len() implies (#[trigger] asked[e]) is StartServer by {
            if e < head.len() {
                assert(asked[e] == head[e]);
            }
        }
    }
}

} // verus!
