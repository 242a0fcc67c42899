//! Language servers: which run, what they are told, and what they are asked.

use crate::buffer::{Buffer, Language};
use crate::disk;
use crate::panes::{self, find_document};
use crate::path::{self, path_eq};
use crate::state::{EditorView, Effect, Server, Servers, State};
use crate::table::Table;
use crate::text::{joined, joined3};
use vstd::prelude::*;
use vstd::string::*;

verus! {

/// How long typing pauses before the servers hear of it, in milliseconds.
pub const PAUSE: u64 = 150;

/// The language a document's server speaks.
pub open spec fn language_of(b: Buffer) -> Option<Language> {
    if b.path is Some {
        b.language
    } else {
        None
    }
}

/// See [`language_of`].
pub fn lsp_language(b: &Buffer) -> (language: Option<Language>)
    ensures
        language == language_of(*b),
{
    if b.path.is_some() {
        b.language
    } else {
        None
    }
}

/// A document that a server should know.
pub struct Wanted {
    pub language: Language,
    pub path: String,
    pub id: u64,
}

/// Whether a server should know `b`.
pub open spec fn is_wanted(b: Buffer) -> bool {
    language_of(b) is Some
}

/// What a server should know of `b`.
pub open spec fn wanted_of(b: Buffer) -> Wanted {
    Wanted { language: b.language->0, path: b.path->0, id: b.id }
}

/// The documents of `list` that servers should know, in order.
pub open spec fn wanted(list: Seq<Buffer>) -> Seq<Wanted>
    decreases list.len(),
{
    if list.len() == 0 {
        Seq::empty()
    } else {
        let head = wanted(list.drop_last());
        if is_wanted(list.last()) {
            head.push(wanted_of(list.last()))
        } else {
            head
        }
    }
}

/// The first of `list` with the key `key`.
pub open spec fn server_at(list: Seq<Server>, key: u8) -> Option<int>
    decreases list.len(),
{
    if list.len() == 0 {
        None
    } else {
        match server_at(list.drop_last(), key) {
            Some(i) => Some(i),
            None => if list.last().key == key {
                Some(list.len() - 1)
            } else {
                None
            },
        }
    }
}

/// What [`server_at`] finds.
pub proof fn server_at_is_first(list: Seq<Server>, key: u8)
    ensures
        match server_at(list, key) {
            Some(i) => 0 <= i < list.len() && list[i].key == key && forall|j: int|
                0 <= j < i ==> (#[trigger] list[j]).key != key,
            None => forall|j: int| 0 <= j < list.len() ==> (#[trigger] list[j]).key != key,
        },
    decreases list.len(),
{
    if list.len() > 0 {
        let head = list.drop_last();
        server_at_is_first(head, key);
        assert(forall|j: int| 0 <= j < head.len() ==> head[j] == list[j]);
    }
}

/// Servers with the same keys are found at the same places.
proof fn server_at_by_keys(a: Seq<Server>, b: Seq<Server>, key: u8)
    requires
        a.len() == b.len(),
        forall|i: int| 0 <= i < a.len() ==> (#[trigger] a[i]).key == b[i].key,
    ensures
        server_at(a, key) == server_at(b, key),
{
    server_at_is_first(a, key);
    server_at_is_first(b, key);
    if let Some(i) = server_at(a, key) {
        assert(b[i].key == key);
    }
    if let Some(i) = server_at(b, key) {
        assert(a[i].key == key);
    }
}

impl Server {
    /// Whether the server has been told about `place`.
    pub open spec fn is_told(&self, place: Seq<char>) -> bool {
        exists|i: int|
            0 <= i < self.known@.len() && path::same_path((#[trigger] self.known@[i])@, place)
    }

    /// Whether the server has been told about `place`.
    pub fn knows(&self, place: &str) -> (r: bool)
        ensures
            r == self.is_told(place@),
    {
        let mut i: usize = 0;
        while i < self.known.len()
            invariant
                i <= self.known@.len(),
                forall|j: int|
                    0 <= j < i ==> !path::same_path((#[trigger] self.known@[j])@, place@),
            decreases self.known@.len() - i,
        {
            if path_eq(self.known[i].as_str(), place) {
                return true;
            }
            i += 1;
        }
        false
    }
}

/// See [`server_at`].
pub fn find_server(list: &Vec<Server>, key: u8) -> (at: Option<usize>)
    ensures
        match (at, server_at(list@, key)) {
            (Some(i), Some(j)) => i == j && i < list@.len() && list@[j].key == key,
            (None, None) => true,
            _ => false,
        },
{
    let mut found: Option<usize> = None;
    let mut i: usize = 0;
    assert(list@.take(0) =~= Seq::empty());
    while i < list.len()
        invariant
            i <= list@.len(),
            match (found, server_at(list@.take(i as int), key)) {
                (Some(a), Some(b)) => a == b && a < i && list@[b].key == key,
                (None, None) => true,
                _ => false,
            },
        decreases list@.len() - i,
    {
        assert(list@.take(i + 1).drop_last() =~= list@.take(i as int));
        if found.is_none() && list[i].key == key {
            found = Some(i);
        }
        i += 1;
    }
    assert(list@.take(list@.len() as int) =~= list@);
    found
}

/// Whether the server for `b` runs, is ready and knows it.
pub open spec fn speaks(list: Seq<Server>, b: Buffer) -> bool {
    &&& language_of(b) matches Some(language)
    &&& server_at(list, language.server) matches Some(i)
    &&& list[i].ready
    &&& list[i].is_told(b.path->0@)
}

/// The place in the list of the server that can be asked about `b`.
pub fn speaking_server(list: &Vec<Server>, b: &Buffer) -> (at: Option<usize>)
    ensures
        at is Some == speaks(list@, *b),
        at matches Some(i) ==> i < list@.len() && server_at(list@, language_of(*b)->0.server)
            == Some(i as int),
{
    match (lsp_language(b), &b.path) {
        (Some(language), Some(place)) => match find_server(list, language.server) {
            Some(i) => if list[i].ready && list[i].knows(place.as_str()) {
                Some(i)
            } else {
                None
            },
            None => None,
        },
        _ => None,
    }
}

/// Whether a server runs for the key of `w` and is ready.
pub open spec fn hears(list: Seq<Server>, w: Wanted) -> bool {
    server_at(list, w.language.server) matches Some(i) && list[i].ready
}

/// Whether `w` and `other` are the same file of the same server.
pub open spec fn same_wanted(w: Wanted, other: Wanted) -> bool {
    w.language.server == other.language.server && path::same_path(w.path@, other.path@)
}

/// Whether the server of `w` knows its file once `earlier` were told.
pub open spec fn told_by_then(list: Seq<Server>, earlier: Seq<Wanted>, w: Wanted) -> bool {
    ||| list[server_at(list, w.language.server)->0].is_told(w.path@)
    ||| exists|j: int| 0 <= j < earlier.len() && same_wanted(#[trigger] earlier[j], w)
}

/// What the servers are told about `batch`: a file that is new to its server
/// is opened there, and one it knows is sent `again` or left alone.
pub open spec fn news(list: Seq<Server>, batch: Seq<Wanted>, again: bool) -> Seq<Effect>
    decreases batch.len(),
{
    if batch.len() == 0 {
        Seq::empty()
    } else {
        let head = news(list, batch.drop_last(), again);
        let w = batch.last();
        if !hears(list, w) {
            head
        } else if told_by_then(list, batch.drop_last(), w) {
            if again {
                head.push(Effect::DidChange(w.id))
            } else {
                head
            }
        } else {
            head.push(Effect::DidOpen(w.id))
        }
    }
}

/// Whether `after` is the server `before` told about what `batch` has for it.
pub open spec fn has_heard(
    after: Server,
    before: Server,
    list: Seq<Server>,
    at: int,
    batch: Seq<Wanted>,
) -> bool {
    &&& after == (Server { known: after.known, ..before })
    &&& forall|place: Seq<char>|
        #![trigger after.is_told(place)]
        after.is_told(place) == (before.is_told(place) || (before.ready && exists|j: int|
            {
                &&& 0 <= j < batch.len()
                &&& server_at(list, (#[trigger] batch[j]).language.server) == Some(at)
                &&& path::same_path(batch[j].path@, place)
            }))
}

/// Whether `after` is `before` told about `batch`.
pub open spec fn all_heard(after: Seq<Server>, before: Seq<Server>, batch: Seq<Wanted>) -> bool {
    &&& after.len() == before.len()
    &&& forall|s: int|
        0 <= s < before.len() ==> has_heard(#[trigger] after[s], before[s], before, s, batch)
}

impl EditorView {
    /// This is `before` with the servers told about `batch`.
    pub open spec fn tells(&self, before: EditorView, batch: Seq<Wanted>, again: bool) -> bool {
        &&& all_heard(self.state.servers.list@, before.state.servers.list@, batch)
        &&& self.becomes(
            before,
            State {
                servers: Servers { list: self.state.servers.list, ..before.state.servers },
                ..before.state
            },
            news(before.state.servers.list@, batch, again),
        )
    }

    /// Tells the servers about `batch`.
    fn tell(&mut self, batch: &Vec<Wanted>, again: bool)
        ensures
            old(self).state.wf() ==> final(self).state.wf(),
            final(self).tells(*old(self), batch@, again),
    {
        let ghost list = old(self).state.servers.list@;
        let mut i: usize = 0;
        assert(batch@.take(0) =~= Seq::empty());
        assert(self.effects@ =~= old(self).effects@ + Seq::<Effect>::empty());
        while i < batch.len()
            invariant
                i <= batch@.len(),
                list == old(self).state.servers.list@,
                self.tells(*old(self), batch@.take(i as int), again),
            decreases batch@.len() - i,
        {
            let ghost earlier = batch@.take(i as int);
            let ghost now = batch@.take(i + 1);
            let ghost w = batch@[i as int];
            let ghost servers = self.state.servers.list@;
            let ghost effects = self.effects@;
            proof {
                assert(now =~= earlier.push(w));
                assert(now.drop_last() =~= earlier);
                assert(now.last() == w);
                server_at_by_keys(servers, list, w.language.server);
                server_at_is_first(list, w.language.server);
            }
            let key = batch[i].language.server;
            if let Some(at) = find_server(&self.state.servers.list, key) {
                if self.state.servers.list[at].ready {
                    let known = self.state.servers.list[at].knows(batch[i].path.as_str());
                    assert(known == told_by_then(list, earlier, w)) by {
                        assert(has_heard(servers[at as int], list[at as int], list, at as int, earlier));
                        assert(servers[at as int].is_told(w.path@) == known);
                        if exists|j: int|
                            0 <= j < earlier.len() && same_wanted(#[trigger] earlier[j], w) {
                            let j = choose|j: int|
                                0 <= j < earlier.len() && same_wanted(#[trigger] earlier[j], w);
                            assert(server_at(list, earlier[j].language.server) == Some(at as int));
                        }
                        if exists|j: int|
                            {
                                &&& 0 <= j < earlier.len()
                                &&& server_at(list, (#[trigger] earlier[j]).language.server)
                                    == Some(at as int)
                                &&& path::same_path(earlier[j].path@, w.path@)
                            } {
                            let j = choose|j: int|
                                {
                                    &&& 0 <= j < earlier.len()
                                    &&& server_at(list, (#[trigger] earlier[j]).language.server)
                                        == Some(at as int)
                                    &&& path::same_path(earlier[j].path@, w.path@)
                                };
                            server_at_is_first(list, earlier[j].language.server);
                            assert(same_wanted(earlier[j], w));
                        }
                    }
                    if known {
                        if again {
                            self.effects.push(Effect::DidChange(batch[i].id));
                        }
                    } else {
                        let path = batch[i].path.clone();
                        self.state.servers.list[at].known.push(path);
                        self.effects.push(Effect::DidOpen(batch[i].id));
                    }
                }
            }
            proof {
                assert(self.effects@ =~= old(self).effects@ + news(list, now, again));
                let after = self.state.servers.list@;
                assert forall|s: int| 0 <= s < list.len() implies has_heard(
                    #[trigger] after[s],
                    list[s],
                    list,
                    s,
                    now,
                ) by {
                    heard_one_more(after[s], servers[s], list[s], list, s, earlier, w, now);
                }
            }
            i += 1;
        }
        assert(batch@.take(batch@.len() as int) =~= batch@);
    }
}

/// A server that has heard of `earlier` and is told of `w`, if that is for it,
/// has heard of both.
proof fn heard_one_more(
    after: Server,
    mid: Server,
    before: Server,
    list: Seq<Server>,
    at: int,
    earlier: Seq<Wanted>,
    w: Wanted,
    all: Seq<Wanted>,
)
    requires
        all == earlier.push(w),
        has_heard(mid, before, list, at, earlier),
        0 <= at < list.len(),
        before == list[at],
        ({
            let mine = server_at(list, w.language.server) == Some(at) && before.ready;
            ||| after == mid && (!mine || mid.is_told(w.path@))
            ||| mine && after.known@ == mid.known@.push(w.path) && after == (Server {
                known: after.known,
                ..mid
            })
        }),
    ensures
        has_heard(after, before, list, at, all),
{
    assert forall|place: Seq<char>|
        #![trigger after.is_told(place)]
        after.is_told(place) == (before.is_told(place) || (before.ready && exists|j: int|
            {
                &&& 0 <= j < all.len()
                &&& server_at(list, (#[trigger] all[j]).language.server) == Some(at)
                &&& path::same_path(all[j].path@, place)
            })) by {
        let n = earlier.len() as int;
        assert(all[n] == w);
        assert(forall|j: int| 0 <= j < n ==> all[j] == earlier[j]);
        assert(mid.is_told(place) == mid.is_told(place));
        if after.is_told(place) {
            let k = choose|k: int|
                0 <= k < after.known@.len() && path::same_path((#[trigger] after.known@[k])@, place);
            if after != mid && k == mid.known@.len() {
                assert(server_at(list, all[n].language.server) == Some(at));
            } else {
                assert(mid.known@[k] == after.known@[k]);
                assert(mid.is_told(place));
            }
        }
        if mid.is_told(place) {
            let k = choose|k: int|
                0 <= k < mid.known@.len() && path::same_path((#[trigger] mid.known@[k])@, place);
            assert(after.known@[k] == mid.known@[k]);
            if before.ready && exists|j: int|
                {
                    &&& 0 <= j < earlier.len()
                    &&& server_at(list, (#[trigger] earlier[j]).language.server) == Some(at)
                    &&& path::same_path(earlier[j].path@, place)
                } {
                let j = choose|j: int|
                    {
                        &&& 0 <= j < earlier.len()
                        &&& server_at(list, (#[trigger] earlier[j]).language.server) == Some(at)
                        &&& path::same_path(earlier[j].path@, place)
                    };
                assert(all[j] == earlier[j]);
            }
        }
        if before.ready && exists|j: int|
            {
                &&& 0 <= j < all.len()
                &&& server_at(list, (#[trigger] all[j]).language.server) == Some(at)
                &&& path::same_path(all[j].path@, place)
            } {
            let j = choose|j: int|
                {
                    &&& 0 <= j < all.len()
                    &&& server_at(list, (#[trigger] all[j]).language.server) == Some(at)
                    &&& path::same_path(all[j].path@, place)
                };
            if j < n {
                assert(earlier[j] == all[j]);
                assert(mid.is_told(place));
            } else if after == mid {
                let k = choose|k: int|
                    0 <= k < mid.known@.len() && path::same_path(
                        (#[trigger] mid.known@[k])@,
                        w.path@,
                    );
                assert(path::same_path(mid.known@[k]@, place));
            } else {
                assert(after.known@[mid.known@.len() as int] == w.path);
            }
        }
    }
}

/// Adds what servers should know of `list` to `batch`.
fn add_wanted(batch: &mut Vec<Wanted>, list: &Vec<Buffer>, Ghost(before): Ghost<Seq<Buffer>>)
    requires
        old(batch)@ == wanted(before),
    ensures
        final(batch)@ == wanted(before + list@),
{
    let mut i: usize = 0;
    assert(before + list@.take(0) =~= before);
    while i < list.len()
        invariant
            i <= list@.len(),
            batch@ == wanted(before + list@.take(i as int)),
        decreases list@.len() - i,
    {
        let ghost so_far = before + list@.take(i as int);
        proof {
            assert(before + list@.take(i + 1) =~= so_far.push(list@[i as int]));
            assert(so_far.push(list@[i as int]).drop_last() =~= so_far);
        }
        if let (Some(language), Some(path)) = (list[i].language, &list[i].path) {
            batch.push(Wanted { language, path: path.clone(), id: list[i].id });
        }
        i += 1;
    }
    assert(before + list@.take(list@.len() as int) =~= before + list@);
}

/// Every open document that a server should know.
fn all_wanted(state: &State) -> (batch: Vec<Wanted>)
    ensures
        batch@ == wanted(disk::all_documents(*state)),
{
    let mut batch: Vec<Wanted> = Vec::new();
    let ghost none = Seq::<Buffer>::empty();
    assert(batch@ =~= wanted(none));
    add_wanted(&mut batch, &state.pane.docs.list, Ghost(none));
    let ghost front = state.pane.docs.list@;
    let panes = &state.panes;
    assert(none + front =~= front + disk::pane_documents(panes@.take(0))) by {
        assert(panes@.take(0) =~= Seq::empty());
    }
    let mut p: usize = 0;
    while p < panes.len()
        invariant
            p <= panes@.len(),
            batch@ == wanted(front + disk::pane_documents(panes@.take(p as int))),
        decreases panes@.len() - p,
    {
        let ghost so_far = front + disk::pane_documents(panes@.take(p as int));
        add_wanted(&mut batch, &panes[p].docs.list, Ghost(so_far));
        proof {
            assert(panes@.take(p + 1).drop_last() =~= panes@.take(p as int));
            assert(so_far + panes@[p as int].docs.list@ =~= front + disk::pane_documents(
                panes@.take(p + 1),
            ));
        }
        p += 1;
    }
    assert(panes@.take(panes@.len() as int) =~= panes@);
    batch
}

/// Whether a server for the key runs, or is known not to start.
pub open spec fn is_settled(servers: Servers, key: u8) -> bool {
    server_at(servers.list@, key) is Some || servers.unavailable@.contains(key)
}

/// The servers to start for `batch`: one for each key that is not settled.
pub open spec fn starts(servers: Servers, batch: Seq<Wanted>) -> Seq<Effect>
    decreases batch.len(),
{
    if batch.len() == 0 {
        Seq::empty()
    } else {
        let head = starts(servers, batch.drop_last());
        let key = batch.last().language.server;
        let asked = exists|j: int|
            0 <= j < batch.len() - 1 && (#[trigger] batch[j]).language.server == key;
        if is_settled(servers, key) || asked {
            head
        } else {
            head.push(Effect::StartServer(batch.last().language))
        }
    }
}

/// Whether `keys` has `key`.
fn has_key(keys: &Vec<u8>, key: u8) -> (r: bool)
    ensures
        r == keys@.contains(key),
{
    let mut i: usize = 0;
    while i < keys.len()
        invariant
            i <= keys@.len(),
            forall|j: int| 0 <= j < i ==> keys@[j] != key,
        decreases keys@.len() - i,
    {
        if keys[i] == key {
            return true;
        }
        i += 1;
    }
    false
}

impl EditorView {
    /// Asks for the servers that `batch` needs.
    fn start_servers(&mut self, batch: &Vec<Wanted>)
        ensures
            final(self).becomes(
                *old(self),
                old(self).state,
                starts(old(self).state.servers, batch@),
            ),
    {
        let mut asked: Vec<u8> = Vec::new();
        let mut i: usize = 0;
        assert(batch@.take(0) =~= Seq::empty());
        assert(self.effects@ =~= old(self).effects@ + Seq::<Effect>::empty());
        while i < batch.len()
            invariant
                i <= batch@.len(),
                self.becomes(
                    *old(self),
                    old(self).state,
                    starts(old(self).state.servers, batch@.take(i as int)),
                ),
                forall|key: u8| #[trigger]
                    asked@.contains(key) ==> exists|j: int|
                        0 <= j < i && (#[trigger] batch@[j]).language.server == key,
                forall|j: int|
                    0 <= j < i ==> is_settled(
                        self.state.servers,
                        (#[trigger] batch@[j]).language.server,
                    ) || asked@.contains(batch@[j].language.server),
            decreases batch@.len() - i,
        {
            let ghost earlier = batch@.take(i as int);
            let ghost now = batch@.take(i + 1);
            let ghost asked_before = asked@;
            let key = batch[i].language.server;
            proof {
                assert(now.drop_last() =~= earlier);
                assert(forall|j: int| 0 <= j < i ==> now[j] == batch@[j]);
                if asked@.contains(key) {
                    let j = choose|j: int|
                        0 <= j < i && (#[trigger] batch@[j]).language.server == key;
                    assert(now[j].language.server == key);
                }
            }
            let settled = find_server(&self.state.servers.list, key).is_some() || has_key(
                &self.state.servers.unavailable,
                key,
            );
            if !settled && !has_key(&asked, key) {
                assert(forall|j: int| 0 <= j < i ==> (#[trigger] now[j]).language.server != key) by {
                    if exists|j: int| 0 <= j < i && (#[trigger] now[j]).language.server == key {
                        let j = choose|j: int|
                            0 <= j < i && (#[trigger] now[j]).language.server == key;
                        assert(batch@[j].language.server == key);
                    }
                }
                asked.push(key);
                self.effects.push(Effect::StartServer(batch[i].language));
                assert(asked@.last() == key);
                assert(self.effects@ =~= old(self).effects@ + starts(
                    old(self).state.servers,
                    now,
                ));
            }
            proof {
                assert forall|k: u8| #[trigger] asked@.contains(k) implies exists|j: int|
                    0 <= j < i + 1 && (#[trigger] batch@[j]).language.server == k by {
                    if asked_before.contains(k) {
                        let j = choose|j: int|
                            0 <= j < i && (#[trigger] batch@[j]).language.server == k;
                        assert(batch@[j].language.server == k);
                    } else {
                        assert(k == key);
                        assert(batch@[i as int].language.server == k);
                    }
                }
                assert forall|j: int| 0 <= j < i + 1 implies is_settled(
                    self.state.servers,
                    (#[trigger] batch@[j]).language.server,
                ) || asked@.contains(batch@[j].language.server) by {
                    if asked_before.contains(batch@[j].language.server) {
                        let k = asked_before.index_of(batch@[j].language.server);
                        assert(asked@[k] == batch@[j].language.server);
                    }
                }
            }
            i += 1;
        }
        assert(batch@.take(batch@.len() as int) =~= batch@);
    }

    /// This is `before` with the servers of its documents asked for.
    pub open spec fn starts_servers(&self, before: EditorView, batch: Seq<Wanted>) -> bool {
        self.becomes(before, before.state, starts(before.state.servers, batch))
    }

    /// This is `before` with the servers of its documents asked for, and those
    /// that are ready told of the documents they do not know.
    pub open spec fn syncs_open(&self, before: EditorView) -> bool {
        let batch = wanted(disk::all_documents(before.state));
        if before.state.side.tree.root is None {
            *self == before
        } else {
            exists|started: EditorView, told: EditorView|
                {
                    &&& #[trigger] started.starts_servers(before, batch)
                    &&& #[trigger] told.tells(started, batch, false)
                    &&& self.marks(told, told.state, Seq::empty())
                }
        }
    }

    /// Starts servers for the languages of open documents and tells each ready
    /// server about the documents it does not know yet. Safe to call often; it
    /// only sends what is new.
    pub fn lsp_sync_open(&mut self)
        requires
            old(self).state.wf(),
        ensures
            final(self).state.wf(),
            final(self).syncs_open(*old(self)),
    {
        if self.state.side.tree.root.is_none() {
            return;
        }
        let batch = all_wanted(&self.state);
        self.start_servers(&batch);
        let ghost started = *self;
        assert(started.starts_servers(*old(self), batch@));
        self.tell(&batch, false);
        let ghost told = *self;
        self.request_redraw();
        assert(self.effects@ =~= told.effects@ + Seq::<Effect>::empty());
    }
}

/// How starting a server went.
pub enum Launch {
    Starting(String),
    /// It is there and did not start.
    Broken(String, String),
    /// There is none for the language.
    Absent(String),
}

/// What is said about it.
pub open spec fn launch_note(launch: Launch) -> Seq<char> {
    match launch {
        Launch::Starting(name) => name@ + " starting"@,
        Launch::Broken(name, error) => name@ + " failed to start: "@ + error@,
        Launch::Absent(reason) => reason@,
    }
}

impl EditorView {
    /// A server was started, or not. A language without one is said so once,
    /// and then the editor is simply an editor for that file.
    pub fn server_started(&mut self, key: u8, launch: Launch, now: u64)
        requires
            old(self).state.wf(),
        ensures
            final(self).state.wf(),
            final(self).state.says(launch_note(launch), now),
            final(self).becomes(
                *old(self),
                State {
                    servers: Servers {
                        list: final(self).state.servers.list,
                        unavailable: final(self).state.servers.unavailable,
                        ..old(self).state.servers
                    },
                    ..old(self).state
                }.saying(final(self).state.status.message->0),
                Seq::empty(),
            ),
            launch is Starting ==> {
                let list = final(self).state.servers.list@;
                &&& final(self).state.servers.unavailable == old(self).state.servers.unavailable
                &&& list.len() == old(self).state.servers.list@.len() + 1
                &&& list.drop_last() == old(self).state.servers.list@
                &&& list.last().key == key
                &&& !list.last().ready
                &&& list.last().known@.len() == 0
            },
            !(launch is Starting) ==> {
                &&& final(self).state.servers.list == old(self).state.servers.list
                &&& final(self).state.servers.unavailable@
                    == old(self).state.servers.unavailable@.push(key)
            },
            is_settled(final(self).state.servers, key),
    {
        match launch {
            Launch::Starting(name) => {
                self.say(joined(name.as_str(), " starting"), now);
                self.state.servers.list.push(
                    Server {
                        key,
                        ready: false,
                        known: Vec::new(),
                        formats: false,
                        triggers: Vec::new(),
                        signature_triggers: Vec::new(),
                    },
                );
                proof {
                    let list = self.state.servers.list@;
                    assert(list.drop_last() =~= old(self).state.servers.list@);
                    server_at_is_first(list, key);
                    assert(list[list.len() - 1].key == key);
                }
            },
            Launch::Broken(name, error) => {
                self.say(joined3(name.as_str(), " failed to start: ", error.as_str()), now);
                self.state.servers.unavailable.push(key);
                assert(self.state.servers.unavailable@.last() == key);
            },
            Launch::Absent(reason) => {
                self.say(reason, now);
                self.state.servers.unavailable.push(key);
                assert(self.state.servers.unavailable@.last() == key);
            },
        }
        assert(self.effects@ =~= old(self).effects@ + Seq::<Effect>::empty());
    }
}

/// Whether `asked` asks for the server `key`.
pub open spec fn asks_for(asked: Seq<Effect>, key: u8) -> bool {
    exists|i: int|
        0 <= i < asked.len() && (#[trigger] asked[i] matches Effect::StartServer(language)
            && language.server == key)
}

/// Every server that `batch` needs is settled or asked for.
pub proof fn all_asked_for(servers: Servers, batch: Seq<Wanted>)
    ensures
        forall|j: int|
            0 <= j < batch.len() ==> is_settled(
                servers,
                (#[trigger] batch[j]).language.server,
            ) || asks_for(starts(servers, batch), batch[j].language.server),
    decreases batch.len(),
{
    if batch.len() > 0 {
        let rest = batch.drop_last();
        all_asked_for(servers, rest);
        let head = starts(servers, rest);
        let all = starts(servers, batch);
        let last = batch.len() - 1;
        assert(forall|i: int| 0 <= i < head.len() ==> all[i] == head[i]);
        assert forall|j: int| 0 <= j < batch.len() implies is_settled(
            servers,
            (#[trigger] batch[j]).language.server,
        ) || asks_for(all, batch[j].language.server) by {
            let key = batch[j].language.server;
            if !is_settled(servers, key) {
                let asked = exists|i: int|
                    0 <= i < last && (#[trigger] batch[i]).language.server == key;
                if asked {
                    let i = choose|i: int|
                        0 <= i < last && (#[trigger] batch[i]).language.server == key;
                    assert(rest[i].language.server == key);
                    let n = choose|n: int|
                        0 <= n < head.len() && (#[trigger] head[n] matches Effect::StartServer(
                            language,
                        ) && language.server == key);
                    assert(all[n] == head[n]);
                } else {
                    if j < last {
                        assert(batch[j].language.server == key);
                    }
                    assert(all[all.len() - 1] == Effect::StartServer(batch[last].language));
                }
            }
        }
    }
}

/// Nothing is started when every server is settled.
proof fn nothing_to_start(servers: Servers, batch: Seq<Wanted>)
    requires
        forall|j: int|
            0 <= j < batch.len() ==> is_settled(servers, (#[trigger] batch[j]).language.server),
    ensures
        starts(servers, batch) == Seq::<Effect>::empty(),
    decreases batch.len(),
{
    if batch.len() > 0 {
        let rest = batch.drop_last();
        assert(forall|j: int| 0 <= j < rest.len() ==> rest[j] == batch[j]);
        nothing_to_start(servers, rest);
        assert(is_settled(servers, batch[batch.len() - 1].language.server));
    }
}

/// Whether every document of `batch` whose server is ready is known to it.
pub open spec fn all_told(list: Seq<Server>, batch: Seq<Wanted>) -> bool {
    forall|j: int|
        0 <= j < batch.len() && hears(list, #[trigger] batch[j]) ==> list[server_at(
            list,
            batch[j].language.server,
        )->0].is_told(batch[j].path@)
}

/// Nothing is sent when everything is known.
proof fn nothing_to_tell(list: Seq<Server>, batch: Seq<Wanted>)
    requires
        all_told(list, batch),
    ensures
        news(list, batch, false) == Seq::<Effect>::empty(),
    decreases batch.len(),
{
    if batch.len() > 0 {
        let rest = batch.drop_last();
        assert forall|j: int| 0 <= j < rest.len() && hears(list, #[trigger] rest[j]) implies list[
            server_at(list, rest[j].language.server)->0
        ].is_told(rest[j].path@) by {
            assert(rest[j] == batch[j]);
        }
        nothing_to_tell(list, rest);
        let w = batch[batch.len() - 1];
        if hears(list, w) {
            assert(told_by_then(list, rest, w));
        }
    }
}

/// Telling leaves nothing untold.
proof fn telling_tells_all(after: Seq<Server>, before: Seq<Server>, batch: Seq<Wanted>)
    requires
        all_heard(after, before, batch),
    ensures
        all_told(after, batch),
        forall|i: int| 0 <= i < after.len() ==> (#[trigger] after[i]).key == before[i].key,
{
    assert forall|i: int| 0 <= i < after.len() implies (#[trigger] after[i]).key
        == before[i].key by {
        assert(has_heard(after[i], before[i], before, i, batch));
    }
    assert forall|j: int| 0 <= j < batch.len() && hears(after, #[trigger] batch[j]) implies after[
        server_at(after, batch[j].language.server)->0
    ].is_told(batch[j].path@) by {
        let key = batch[j].language.server;
        server_at_by_keys(after, before, key);
        server_at_is_first(after, key);
        let at = server_at(after, key)->0;
        assert(has_heard(after[at], before[at], before, at, batch));
        assert(path::same_path(batch[j].path@, batch[j].path@));
        assert(after[at].is_told(batch[j].path@) == after[at].is_told(batch[j].path@));
    }
}

/// More servers at the end: those that were found are found where they were.
proof fn found_as_before(more: Seq<Server>, list: Seq<Server>, key: u8)
    requires
        list.len() <= more.len(),
        more.take(list.len() as int) == list,
    ensures
        server_at(list, key) matches Some(i) ==> server_at(more, key) == Some(i) && more[i]
            == list[i],
        server_at(more, key) matches Some(i) ==> i < list.len() ==> server_at(list, key) == Some(i)
            && more[i] == list[i],
{
    server_at_is_first(list, key);
    server_at_is_first(more, key);
    assert(forall|i: int| 0 <= i < list.len() ==> more[i] == #[trigger] list[i]);
    if let Some(i) = server_at(list, key) {
        assert(more[i].key == key);
    }
    if let Some(i) = server_at(more, key) {
        if i < list.len() {
            assert(list[i].key == key);
        }
    }
}

/// Whether `after` is how things stand once the servers that were `asked` for
/// were started, or were found missing, and nothing else happened to the
/// servers and the documents of `before`. What was started is not ready yet.
pub open spec fn only_started(after: State, before: State, asked: Seq<Effect>) -> bool {
    let list = after.servers.list@;
    let count = before.servers.list@.len();
    &&& after.side.tree.root == before.side.tree.root
    &&& disk::all_documents(after) == disk::all_documents(before)
    &&& list.len() >= count
    &&& list.take(count as int) == before.servers.list@
    &&& forall|i: int| count <= i < list.len() ==> !(#[trigger] list[i]).ready
    &&& forall|key: u8| #[trigger]
        before.servers.unavailable@.contains(key) ==> after.servers.unavailable@.contains(key)
    &&& forall|key: u8| #[trigger] asks_for(asked, key) ==> is_settled(after.servers, key)
}

/// Syncing again sends nothing: once the servers that the first call asked for
/// have been started or found missing, a second call with nothing changed
/// starts no server and opens no document, and every open document whose
/// server is ready is known to it.
pub proof fn syncing_again_sends_nothing(
    before: EditorView,
    first: EditorView,
    between: EditorView,
    second: EditorView,
)
    requires
        before.state.side.tree.root is Some,
        first.syncs_open(before),
        only_started(
            between.state,
            first.state,
            starts(before.state.servers, wanted(disk::all_documents(before.state))),
        ),
        second.syncs_open(between),
    ensures
        second.effects@ == between.effects@,
        all_told(
            second.state.servers.list@,
            wanted(disk::all_documents(second.state)),
        ),
{
    let batch = wanted(disk::all_documents(before.state));
    let asked = starts(before.state.servers, batch);
    let (started, told) = choose|started: EditorView, told: EditorView|
        {
            &&& #[trigger] started.starts_servers(before, batch)
            &&& #[trigger] told.tells(started, batch, false)
            &&& first.marks(told, told.state, Seq::empty())
        };
    let old_list = before.state.servers.list@;
    let list = first.state.servers.list@;
    let more = between.state.servers.list@;
    telling_tells_all(list, old_list, batch);
    all_asked_for(before.state.servers, batch);
    assert forall|j: int| 0 <= j < batch.len() implies is_settled(
        between.state.servers,
        (#[trigger] batch[j]).language.server,
    ) by {
        let key = batch[j].language.server;
        assert(is_settled(before.state.servers, key) || asks_for(asked, key));
        assert(first.state.servers.unavailable == before.state.servers.unavailable);
        if asks_for(asked, key) {
            assert(is_settled(between.state.servers, key));
        } else if before.state.servers.unavailable@.contains(key) {
            assert(first.state.servers.unavailable@.contains(key));
        } else {
            server_at_by_keys(list, old_list, key);
            found_as_before(more, list, key);
        }
    }
    nothing_to_start(between.state.servers, batch);
    assert forall|j: int| 0 <= j < batch.len() && hears(more, #[trigger] batch[j]) implies more[
        server_at(more, batch[j].language.server)->0
    ].is_told(batch[j].path@) by {
        let key = batch[j].language.server;
        server_at_is_first(more, key);
        found_as_before(more, list, key);
        assert(hears(list, batch[j]));
    }
    nothing_to_tell(more, batch);
    let (restarted, retold) = choose|restarted: EditorView, retold: EditorView|
        {
            &&& #[trigger] restarted.starts_servers(between, batch)
            &&& #[trigger] retold.tells(restarted, batch, false)
            &&& second.marks(retold, retold.state, Seq::empty())
        };
    telling_tells_all(second.state.servers.list@, more, batch);
    assert(second.effects@ =~= between.effects@);
}

/// One call asks for a server once at most.
pub proof fn a_server_is_asked_for_once(servers: Servers, batch: Seq<Wanted>)
    ensures
        forall|i: int, j: int|
            0 <= i < j < starts(servers, batch).len() ==> {
                let first = #[trigger] starts(servers, batch)[i];
                let second = #[trigger] starts(servers, batch)[j];
                first matches Effect::StartServer(a) && second matches Effect::StartServer(b)
                    && a.server != b.server
            },
        forall|i: int|
            0 <= i < starts(servers, batch).len() ==> (
            #[trigger] starts(servers, batch)[i] matches Effect::StartServer(a) && exists|j: int|
                0 <= j < batch.len() && (#[trigger] batch[j]).language == a),
    decreases batch.len(),
{
    if batch.len() > 0 {
        let rest = batch.drop_last();
        a_server_is_asked_for_once(servers, rest);
        let head = starts(servers, rest);
        let all = starts(servers, batch);
        let last = batch.len() - 1;
        assert(forall|i: int| 0 <= i < head.len() ==> all[i] == head[i]);
        assert forall|i: int| 0 <= i < all.len() implies (
        #[trigger] all[i] matches Effect::StartServer(a) && exists|j: int|
            0 <= j < batch.len() && (#[trigger] batch[j]).language == a) by {
            if i < head.len() {
                assert(head[i] == all[i]);
                let a = head[i]->StartServer_0;
                let j = choose|j: int| 0 <= j < rest.len() && (#[trigger] rest[j]).language == a;
                assert(batch[j] == rest[j]);
            } else {
                assert(batch[last].language == all[i]->StartServer_0);
            }
        }
        assert forall|i: int, j: int| 0 <= i < j < all.len() implies {
            let first = #[trigger] all[i];
            let second = #[trigger] all[j];
            first matches Effect::StartServer(a) && second matches Effect::StartServer(b)
                && a.server != b.server
        } by {
            assert(head[i] == all[i]);
            if j < head.len() {
                assert(head[j] == all[j]);
            } else {
                let a = head[i]->StartServer_0;
                let n = choose|n: int| 0 <= n < rest.len() && (#[trigger] rest[n]).language == a;
                assert(batch[n] == rest[n]);
                assert(batch[n].language.server == a.server);
            }
        }
    }
}

/// A server that is settled, running or known not to start, is never asked for
/// again: a missing one is said so once.
pub proof fn a_settled_server_is_not_started(servers: Servers, batch: Seq<Wanted>, key: u8)
    requires
        is_settled(servers, key),
    ensures
        forall|i: int|
            0 <= i < starts(servers, batch).len() ==> (
            #[trigger] starts(servers, batch)[i] matches Effect::StartServer(language)
                ==> language.server != key),
    decreases batch.len(),
{
    if batch.len() > 0 {
        a_settled_server_is_not_started(servers, batch.drop_last(), key);
        let head = starts(servers, batch.drop_last());
        assert(forall|i: int| 0 <= i < head.len() ==> starts(servers, batch)[i] == head[i]);
    }
}

/// The ids whose stamps are `pause` old.
pub open spec fn due_ids(rows: Seq<(u64, u64)>, pause: u64, now: u64) -> Seq<u64>
    decreases rows.len(),
{
    if rows.len() == 0 {
        Seq::empty()
    } else {
        let head = due_ids(rows.drop_last(), pause, now);
        if pause == 0 || now - rows.last().1 >= pause {
            head.push(rows.last().0)
        } else {
            head
        }
    }
}

/// `map` without `ids`.
pub open spec fn without_ids(map: Map<u64, u64>, ids: Seq<u64>) -> Map<u64, u64>
    decreases ids.len(),
{
    if ids.len() == 0 {
        map
    } else {
        without_ids(map, ids.drop_last()).remove(ids.last())
    }
}

/// What servers should hear of the documents `ids`, as far as they are open.
pub open spec fn batch_for(s: State, ids: Seq<u64>) -> Seq<Wanted>
    decreases ids.len(),
{
    if ids.len() == 0 {
        Seq::empty()
    } else {
        let head = batch_for(s, ids.drop_last());
        match panes::document(s, ids.last()) {
            Some(b) => if is_wanted(b) {
                head.push(wanted_of(b))
            } else {
                head
            },
            None => head,
        }
    }
}

/// See [`due_ids`].
pub fn find_due(table: &Table<u64>, pause: u64, now: u64) -> (ids: Vec<u64>)
    ensures
        ids@ == due_ids(table.rows@, pause, now),
{
    let rows = &table.rows;
    let mut ids: Vec<u64> = Vec::new();
    let mut i: usize = 0;
    assert(rows@.take(0) =~= Seq::empty());
    while i < rows.len()
        invariant
            i <= rows@.len(),
            ids@ == due_ids(rows@.take(i as int), pause, now),
        decreases rows@.len() - i,
    {
        assert(rows@.take(i + 1).drop_last() =~= rows@.take(i as int));
        let (id, at) = rows[i];
        if pause == 0 || (now >= at && now - at >= pause) {
            ids.push(id);
        }
        i += 1;
    }
    assert(rows@.take(rows@.len() as int) =~= rows@);
    ids
}

/// Takes `ids` out of `table`.
pub fn remove_ids(table: &mut Table<u64>, ids: &Vec<u64>)
    requires
        old(table).wf(),
    ensures
        final(table).wf(),
        final(table)@ == without_ids(old(table)@, ids@),
        ids@.len() == 0 ==> *final(table) == *old(table),
{
    let mut i: usize = 0;
    assert(ids@.take(0) =~= Seq::empty());
    while i < ids.len()
        invariant
            i <= ids@.len(),
            table.wf(),
            table@ == without_ids(old(table)@, ids@.take(i as int)),
            ids@.len() == 0 ==> *table == *old(table),
        decreases ids@.len() - i,
    {
        assert(ids@.take(i + 1).drop_last() =~= ids@.take(i as int));
        let gone = table.remove(ids[i]);
        i += 1;
    }
    assert(ids@.take(ids@.len() as int) =~= ids@);
}

impl EditorView {
    /// What the servers should hear of the documents `ids`.
    fn wanted_among(&self, ids: &Vec<u64>) -> (batch: Vec<Wanted>)
        ensures
            batch@ == batch_for(self.state, ids@),
    {
        let mut batch: Vec<Wanted> = Vec::new();
        let mut i: usize = 0;
        assert(ids@.take(0) =~= Seq::empty());
        while i < ids.len()
            invariant
                i <= ids@.len(),
                batch@ == batch_for(self.state, ids@.take(i as int)),
            decreases ids@.len() - i,
        {
            assert(ids@.take(i + 1).drop_last() =~= ids@.take(i as int));
            if let Some(b) = find_document(&self.state, ids[i]) {
                if let (Some(language), Some(path)) = (b.language, &b.path) {
                    batch.push(Wanted { language, path: path.clone(), id: b.id });
                }
            }
            i += 1;
        }
        assert(ids@.take(ids@.len() as int) =~= ids@);
        batch
    }

    /// This is `before` with the stamps of `ids` taken off.
    pub open spec fn unstamps(&self, before: EditorView, ids: Seq<u64>) -> bool {
        &&& self.state.servers.dirty@ == without_ids(before.state.servers.dirty@, ids)
        &&& self.becomes(
            before,
            before.state.with_server_stamps(self.state.servers.dirty),
            Seq::empty(),
        )
    }

    /// This is `before` with the servers having heard of every document whose
    /// stamp is `pause` old.
    pub open spec fn flushes(&self, before: EditorView, pause: u64, now: u64) -> bool {
        let ids = due_ids(before.state.servers.dirty.rows@, pause, now);
        if ids.len() == 0 {
            *self == before
        } else {
            exists|unstamped: EditorView|
                {
                    &&& #[trigger] unstamped.unstamps(before, ids)
                    &&& self.tells(unstamped, batch_for(before.state, ids), true)
                }
        }
    }

    /// Sends the text of documents whose stamp is `pause` old.
    fn flush(&mut self, pause: u64, now: u64)
        requires
            old(self).state.wf(),
        ensures
            final(self).state.wf(),
            final(self).flushes(*old(self), pause, now),
    {
        let ids = find_due(&self.state.servers.dirty, pause, now);
        if ids.len() == 0 {
            return;
        }
        let batch = self.wanted_among(&ids);
        remove_ids(&mut self.state.servers.dirty, &ids);
        let ghost unstamped = *self;
        assert(unstamped.effects@ =~= old(self).effects@ + Seq::<Effect>::empty());
        assert(unstamped.unstamps(*old(self), ids@));
        self.tell(&batch, true);
    }

    /// Sends the text of documents that changed once typing has paused.
    pub fn lsp_flush_changes(&mut self, now: u64)
        requires
            old(self).state.wf(),
        ensures
            final(self).state.wf(),
            final(self).flushes(*old(self), PAUSE, now),
    {
        self.flush(PAUSE, now);
    }

    /// Sends pending changes without waiting for the pause, so a request that
    /// follows sees the current text.
    pub fn lsp_flush_now(&mut self, now: u64)
        requires
            old(self).state.wf(),
        ensures
            final(self).state.wf(),
            final(self).flushes(*old(self), 0, now),
    {
        self.flush(0, now);
    }
}

/// Flushing now leaves nothing waiting.
pub proof fn flushing_now_leaves_nothing(before: EditorView, after: EditorView, now: u64)
    requires
        before.state.wf(),
        after.flushes(before, 0, now),
    ensures
        after.state.servers.dirty@.dom() =~= Set::<u64>::empty(),
{
    let table = before.state.servers.dirty;
    all_due(table.rows@, now);
    let ids = due_ids(table.rows@, 0, now);
    without_all(table@, ids);
    assert forall|id: u64| !after.state.servers.dirty@.contains_key(id) by {
        if table@.contains_key(id) {
            let i = table.place(id);
            assert(ids[i] == id);
            assert(ids.contains(id));
        }
    }
}

/// Without a pause every row is due.
proof fn all_due(rows: Seq<(u64, u64)>, now: u64)
    ensures
        due_ids(rows, 0, now).len() == rows.len(),
        forall|i: int| 0 <= i < rows.len() ==> due_ids(rows, 0, now)[i] == rows[i].0,
    decreases rows.len(),
{
    if rows.len() > 0 {
        all_due(rows.drop_last(), now);
    }
}

/// What is taken out is gone, and nothing comes in.
proof fn without_all(map: Map<u64, u64>, ids: Seq<u64>)
    ensures
        forall|id: u64| #[trigger]
            without_ids(map, ids).contains_key(id) ==> map.contains_key(id) && !ids.contains(id),
    decreases ids.len(),
{
    if ids.len() > 0 {
        without_all(map, ids.drop_last());
        assert forall|id: u64| #[trigger]
            without_ids(map, ids).contains_key(id) implies map.contains_key(id) && !ids.contains(
            id,
        ) by {
            assert(without_ids(map, ids.drop_last()).contains_key(id));
            if ids.contains(id) {
                let k = ids.index_of(id);
                if k < ids.len() - 1 {
                    assert(ids.drop_last()[k] == id);
                }
            }
        }
    }
}

} // verus!
