//! Panes side by side, each with its own tabs. The focused one lives in the
//! state's own fields, so that everything that edits, saves, finds or draws
//! "the document" works on whichever pane has the keys.

use crate::buffer::Buffer;
use crate::documents::Documents;
use crate::state::{LinePlace, State, TabHit};
use vstd::prelude::*;

verus! {

/// The state of a pane that does not have the keyboard.
pub struct PaneStore {
    pub docs: Documents,
    pub preview: Option<usize>,
    pub tab_scroll: usize,
    pub tab_hits: Vec<TabHit>,
    pub live_line: Option<LinePlace>,
}

/// Every pane in order, the focused one among them.
pub open spec fn every_pane(state: State) -> Seq<PaneStore> {
    let at = if state.focused_pane <= state.panes@.len() {
        state.focused_pane as int
    } else {
        state.panes@.len() as int
    };
    state.panes@.insert(at, state.pane)
}

/// The pane that `focus` leads to when there are `count`.
pub open spec fn pane_in_range(focus: int, count: int) -> int {
    if focus < count {
        focus
    } else {
        count - 1
    }
}

/// `state` with the panes `all`, pane `focus` of them focused and the others
/// in the list `rest`.
pub open spec fn with_panes(
    state: State,
    all: Seq<PaneStore>,
    focus: int,
    rest: Vec<PaneStore>,
) -> State {
    State { pane: all[focus], panes: rest, focused_pane: focus as usize, ..state }
}

/// An empty pane: the home screen.
pub open spec fn is_empty_pane(pane: PaneStore) -> bool {
    &&& pane.docs.wf()
    &&& pane.docs.at_home()
    &&& pane.docs.active == 0
    &&& pane.preview is None
    &&& pane.tab_scroll == 0
    &&& pane.tab_hits@.len() == 0
    &&& pane.live_line is None
}

/// A pane with nothing open; `id` is the id of its blank document.
pub fn empty_pane(id: u64) -> (pane: PaneStore)
    ensures
        is_empty_pane(pane),
        pane.docs.front().id == id,
{
    PaneStore {
        docs: Documents::new(Buffer::new(id)),
        preview: None,
        tab_scroll: 0,
        tab_hits: Vec::new(),
        live_line: None,
    }
}

/// How many panes there are.
pub fn pane_count(state: &State) -> (n: usize)
    requires
        state.panes@.len() < 4,
    ensures
        n == every_pane(*state).len(),
        n == state.panes@.len() + 1,
{
    state.panes.len() + 1
}

/// Every pane in order, the focused one taken out of the state, which keeps
/// an empty one. The inverse is [`restore_panes`].
pub fn take_panes(state: &mut State) -> (all: Vec<PaneStore>)
    ensures
        all@ == every_pane(*old(state)),
        is_empty_pane(final(state).pane),
        final(state).panes@.len() == 0,
        *final(state) == (State {
            pane: final(state).pane,
            panes: final(state).panes,
            ..*old(state)
        }),
{
    let mut focused = empty_pane(0);
    std::mem::swap(&mut state.pane, &mut focused);
    let mut all: Vec<PaneStore> = Vec::new();
    std::mem::swap(&mut state.panes, &mut all);
    let at: usize = if state.focused_pane <= all.len() {
        state.focused_pane
    } else {
        all.len()
    };
    all.insert(at, focused);
    all
}

/// Puts `all` back with pane `focus` focused; the last pane when there is no
/// such pane.
pub fn restore_panes(state: &mut State, all: Vec<PaneStore>, focus: usize)
    requires
        all@.len() > 0,
    ensures
        final(state).panes@ == all@.remove(pane_in_range(focus as int, all@.len() as int)),
        *final(state) == with_panes(
            *old(state),
            all@,
            pane_in_range(focus as int, all@.len() as int),
            final(state).panes,
        ),
{
    let mut all = all;
    let at: usize = if focus < all.len() {
        focus
    } else {
        all.len() - 1
    };
    state.pane = all.remove(at);
    state.panes = all;
    state.focused_pane = at;
}

/// Taking the panes out and putting them back with the same pane focused
/// changes nothing.
pub proof fn panes_come_back(state: State)
    requires
        state.focused_pane <= state.panes@.len(),
    ensures
        every_pane(state).remove(state.focused_pane as int) == state.panes@,
        with_panes(state, every_pane(state), state.focused_pane as int, state.panes) == state,
{
    assert(every_pane(state).remove(state.focused_pane as int) =~= state.panes@);
}

/// Focusing another pane keeps every pane, in the same order.
pub proof fn focusing_keeps_the_panes(state: State, focus: int, rest: Vec<PaneStore>)
    requires
        state.focused_pane <= state.panes@.len(),
        0 <= focus <= state.panes@.len(),
        state.panes@.len() < usize::MAX,
        rest@ == every_pane(state).remove(focus),
    ensures
        every_pane(with_panes(state, every_pane(state), focus, rest)) == every_pane(state),
{
    let all = every_pane(state);
    let after = with_panes(state, all, focus, rest);
    assert(every_pane(after) =~= all);
}

/// Whether the documents of `after` are those of `before` once `from` has
/// become `to`.
pub open spec fn docs_follow(
    after: Documents,
    before: Documents,
    from: Seq<char>,
    to: Seq<char>,
) -> bool {
    &&& after.active == before.active
    &&& after.list@.len() == before.list@.len()
    &&& forall|i: int|
        0 <= i < before.list@.len() ==> crate::documents::follows_move(
            #[trigger] after.list@[i],
            before.list@[i],
            from,
            to,
        )
}

/// Whether the panes of `after` are those of `before` once `from` has become
/// `to`, and nothing else differs.
pub open spec fn panes_follow(after: State, before: State, from: Seq<char>, to: Seq<char>) -> bool {
    &&& after == (State { pane: after.pane, panes: after.panes, ..before })
    &&& after.pane == (PaneStore { docs: after.pane.docs, ..before.pane })
    &&& docs_follow(after.pane.docs, before.pane.docs, from, to)
    &&& after.panes@.len() == before.panes@.len()
    &&& forall|p: int|
        0 <= p < before.panes@.len() ==> {
            &&& (#[trigger] after.panes@[p]) == (PaneStore {
                docs: after.panes@[p].docs,
                ..before.panes@[p]
            })
            &&& docs_follow(after.panes@[p].docs, before.panes@[p].docs, from, to)
        }
}

/// Gives every open document at `from` and below it its place once it has
/// become `to`, in every pane.
pub fn rename_everywhere(state: &mut State, from: &str, to: &str)
    requires
        old(state).wf(),
    ensures
        final(state).wf(),
        panes_follow(*final(state), *old(state), from@, to@),
{
    let ghost before = *state;
    state.pane.docs.rename_path(from, to);
    let ghost pane = state.pane;
    let mut p: usize = 0;
    while p < state.panes.len()
        invariant
            before == *old(state),
            before.wf(),
            *state == (State { pane, panes: state.panes, ..before }),
            p <= state.panes@.len() == before.panes@.len(),
            forall|q: int| p <= q < before.panes@.len() ==> #[trigger] state.panes@[q]
                == before.panes@[q],
            forall|q: int|
                0 <= q < p ==> {
                    &&& (#[trigger] state.panes@[q]) == (PaneStore {
                        docs: state.panes@[q].docs,
                        ..before.panes@[q]
                    })
                    &&& docs_follow(state.panes@[q].docs, before.panes@[q].docs, from@, to@)
                    &&& state.panes@[q].docs.wf()
                },
        decreases state.panes@.len() - p,
    {
        assert(before.panes@[p as int].docs.wf());
        state.panes[p].docs.rename_path(from, to);
        p += 1;
    }
}

/// The place, in the full order, of the pane in slot `slot` of those without
/// the keyboard.
pub open spec fn pane_number(slot: int, focused: usize) -> int {
    if slot >= focused {
        slot + 1
    } else {
        slot
    }
}

/// The first document `id` in `panes`.
pub open spec fn document_in(panes: Seq<PaneStore>, id: u64) -> Option<Buffer>
    decreases panes.len(),
{
    if panes.len() == 0 {
        None
    } else {
        match document_in(panes.drop_last(), id) {
            Some(b) => Some(b),
            None => match panes.last().docs.position_with(id) {
                Some(i) => Some(panes.last().docs.list@[i]),
                None => None,
            },
        }
    }
}

/// The document `id`: in the focused pane, or in the first other that has it.
pub open spec fn document(state: State, id: u64) -> Option<Buffer> {
    match state.pane.docs.position_with(id) {
        Some(i) => Some(state.pane.docs.list@[i]),
        None => document_in(state.panes@, id),
    }
}

/// See [`document`].
pub fn find_document(state: &State, id: u64) -> (found: Option<&Buffer>)
    ensures
        match (found, document(*state, id)) {
            (Some(a), Some(b)) => *a == b,
            (None, None) => true,
            _ => false,
        },
{
    if let Some(i) = state.pane.docs.index_with(id) {
        return Some(&state.pane.docs.list[i]);
    }
    let panes = &state.panes;
    let mut p: usize = 0;
    assert(panes@.take(0) =~= Seq::empty());
    while p < panes.len()
        invariant
            *panes == state.panes,
            p <= panes@.len(),
            document_in(panes@.take(p as int), id) is None,
            state.pane.docs.position_with(id) is None,
        decreases panes@.len() - p,
    {
        assert(panes@.take(p + 1).drop_last() =~= panes@.take(p as int));
        if let Some(i) = panes[p].docs.index_with(id) {
            proof {
                found_in_all(panes@, p + 1, id);
            }
            return Some(&panes[p].docs.list[i]);
        }
        p += 1;
    }
    assert(panes@.take(panes@.len() as int) =~= panes@);
    None
}

/// What the first panes have is found among all of them.
proof fn found_in_all(panes: Seq<PaneStore>, n: int, id: u64)
    requires
        0 <= n <= panes.len(),
        document_in(panes.take(n), id) is Some,
    ensures
        document_in(panes, id) == document_in(panes.take(n), id),
    decreases panes.len(),
{
    if n == panes.len() {
        assert(panes.take(n) =~= panes);
    } else {
        assert(panes.drop_last().take(n) =~= panes.take(n));
        found_in_all(panes.drop_last(), n, id);
    }
}

/// The first of `panes` with document `id`.
pub open spec fn pane_with_id(panes: Seq<PaneStore>, id: u64) -> Option<int>
    decreases panes.len(),
{
    if panes.len() == 0 {
        None
    } else {
        match pane_with_id(panes.drop_last(), id) {
            Some(p) => Some(p),
            None => if panes.last().docs.position_with(id) is Some {
                Some(panes.len() - 1)
            } else {
                None
            },
        }
    }
}

/// See [`pane_with_id`].
pub fn find_pane_with(panes: &Vec<PaneStore>, id: u64) -> (found: Option<(usize, usize)>)
    ensures
        match (found, pane_with_id(panes@, id)) {
            (Some((p, i)), Some(q)) => p == q && p < panes@.len()
                && panes@[q].docs.position_with(id) == Some(i as int) && i
                < panes@[q].docs.list@.len(),
            (None, None) => true,
            _ => false,
        },
{
    let mut found: Option<(usize, usize)> = None;
    let mut p: usize = 0;
    assert(panes@.take(0) =~= Seq::empty());
    while p < panes.len()
        invariant
            p <= panes@.len(),
            match (found, pane_with_id(panes@.take(p as int), id)) {
                (Some((a, i)), Some(b)) => a == b && a < p && panes@[b].docs.position_with(id)
                    == Some(i as int) && i < panes@[b].docs.list@.len(),
                (None, None) => true,
                _ => false,
            },
        decreases panes@.len() - p,
    {
        assert(panes@.take(p + 1).drop_last() =~= panes@.take(p as int));
        if found.is_none() {
            if let Some(i) = panes[p].docs.index_with(id) {
                found = Some((p, i));
            }
        }
        p += 1;
    }
    assert(panes@.take(panes@.len() as int) =~= panes@);
    found
}

/// What [`pane_with_id`] finds, and that it is where the document is.
pub proof fn pane_with_id_is_first(panes: Seq<PaneStore>, id: u64)
    ensures
        match pane_with_id(panes, id) {
            Some(p) => {
                &&& 0 <= p < panes.len()
                &&& panes[p].docs.position_with(id) matches Some(i)
                &&& document_in(panes, id) == Some(panes[p].docs.list@[i])
                &&& forall|q: int|
                    0 <= q < p ==> (#[trigger] panes[q]).docs.position_with(id) is None
            },
            None => {
                &&& document_in(panes, id) is None
                &&& forall|q: int|
                    0 <= q < panes.len() ==> (#[trigger] panes[q]).docs.position_with(id) is None
            },
        },
    decreases panes.len(),
{
    if panes.len() > 0 {
        let head = panes.drop_last();
        pane_with_id_is_first(head, id);
        assert(forall|q: int| 0 <= q < head.len() ==> head[q] == panes[q]);
    }
}

/// There is only one first.
pub proof fn pane_with_id_unique(panes: Seq<PaneStore>, id: u64, p: int)
    requires
        0 <= p < panes.len(),
        panes[p].docs.position_with(id) is Some,
        forall|q: int| 0 <= q < p ==> (#[trigger] panes[q]).docs.position_with(id) is None,
    ensures
        pane_with_id(panes, id) == Some(p),
{
    pane_with_id_is_first(panes, id);
    if let Some(q) = pane_with_id(panes, id) {
        if p < q {
            assert(panes[p].docs.position_with(id) is None);
        }
    } else {
        assert(panes[p].docs.position_with(id) is None);
    }
}

/// Whether `b` is open, in whichever pane.
pub open spec fn is_open(state: State, b: Buffer) -> bool {
    ||| state.pane.docs.list@.contains(b)
    ||| exists|p: int| 0 <= p < state.panes@.len() && (#[trigger] state.panes@[p]).docs.list@.contains(b)
}

/// Whether at most one document of `docs` is `id`.
pub open spec fn once_in(docs: Documents, id: u64) -> bool {
    forall|i: int, j: int|
        0 <= i < docs.list@.len() && 0 <= j < docs.list@.len() && (#[trigger] docs.list@[i]).id
            == id && (#[trigger] docs.list@[j]).id == id ==> i == j
}

/// Whether at most one open document is `id`, as ids are given out once.
pub open spec fn once(state: State, id: u64) -> bool {
    &&& once_in(state.pane.docs, id)
    &&& forall|p: int| 0 <= p < state.panes@.len() ==> once_in((#[trigger] state.panes@[p]).docs, id)
    &&& state.pane.docs.position_with(id) is Some ==> forall|p: int|
        0 <= p < state.panes@.len() ==> (#[trigger] state.panes@[p]).docs.position_with(id) is None
    &&& forall|p: int, q: int|
        0 <= p < state.panes@.len() && 0 <= q < state.panes@.len()
            && (#[trigger] state.panes@[p]).docs.position_with(id) is Some && (
        #[trigger] state.panes@[q]).docs.position_with(id) is Some ==> p == q
}

/// A document that no pane has is not found.
pub proof fn not_found(state: State, id: u64)
    requires
        state.pane.docs.position_with(id) is None,
        forall|p: int|
            0 <= p < state.panes@.len() ==> (#[trigger] state.panes@[p]).docs.position_with(id) is None,
    ensures
        document(state, id) is None,
{
    pane_with_id_is_first(state.panes@, id);
}

} // verus!
