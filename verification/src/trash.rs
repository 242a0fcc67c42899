//! Moving items to the Trash, and what becomes of their tabs.

use crate::buffer::Buffer;
use crate::documents::Documents;
use crate::panes::PaneStore;
use crate::path::{self, display_name, path_within};
use crate::save::Question;
use crate::state::{EditorView, Effect, State, Task};
use crate::tabs::present;
use crate::text::{joined, joined3};
use vstd::prelude::*;
use vstd::string::*;

verus! {

/// Whether a document's file is at `place` or below it.
pub open spec fn lies_under(b: Buffer, place: Seq<char>) -> bool {
    b.path matches Some(own) && path::is_within(own@, place)
}

/// The documents whose files are elsewhere.
pub open spec fn kept(list: Seq<Buffer>, place: Seq<char>) -> Seq<Buffer>
    decreases list.len(),
{
    if list.len() == 0 {
        Seq::empty()
    } else if lies_under(list.last(), place) {
        kept(list.drop_last(), place)
    } else {
        kept(list.drop_last(), place).push(list.last())
    }
}

/// Whether `after` is `before` without the documents under `place`. The one in
/// front stays there if it is kept; otherwise the next one comes to the front,
/// or the last when there is none after it. When nothing is left, a blank
/// document `fresh` is.
pub open spec fn clears(after: Documents, before: Documents, place: Seq<char>, fresh: u64) -> bool {
    let rest = kept(before.list@, place);
    let ahead = kept(before.list@.take(before.active as int), place).len();
    if rest.len() > 0 {
        &&& after.list@ == rest
        &&& after.active == (if ahead < rest.len() {
            ahead as int
        } else {
            rest.len() - 1
        })
    } else {
        &&& after.list@.len() == 1
        &&& after.list@[0].is_blank()
        &&& after.list@[0].id == fresh
        &&& after.active == 0
    }
}

/// See [`lies_under`].
fn under(b: &Buffer, place: &str) -> (r: bool)
    ensures
        r == lies_under(*b, place@),
{
    match &b.path {
        Some(own) => path_within(own.as_str(), place),
        None => false,
    }
}

/// What is kept of a longer list is no shorter.
proof fn kept_grows(list: Seq<Buffer>, place: Seq<char>, a: int, b: int)
    requires
        0 <= a <= b <= list.len(),
    ensures
        kept(list.take(a), place).len() <= kept(list.take(b), place).len() <= b,
    decreases b,
{
    if b > 0 {
        assert(list.take(b).drop_last() =~= list.take(b - 1));
        if a < b {
            kept_grows(list, place, a, b - 1);
        } else {
            kept_grows(list, place, b - 1, b - 1);
        }
    }
}

impl Documents {
    /// Closes the documents whose files are at `place` or below it.
    pub fn close_under(&mut self, place: &str, fresh: u64)
        requires
            old(self).wf(),
        ensures
            final(self).wf(),
            clears(*final(self), *old(self), place@, fresh),
    {
        let ghost before = self.list@;
        let count = self.list.len();
        let active = self.active;
        let mut at: usize = 0;
        let mut seen: usize = 0;
        let mut ahead: usize = 0;
        assert(before.take(0) =~= Seq::empty());
        assert(self.list@ =~= kept(before.take(0), place@) + before.skip(0));
        while seen < count
            invariant
                seen <= count == before.len(),
                active < count,
                active == old(self).active,
                before == old(self).list@,
                old(self).wf(),
                at == kept(before.take(seen as int), place@).len() <= seen,
                self.list@ == kept(before.take(seen as int), place@) + before.skip(seen as int),
                seen <= active ==> ahead == at,
                seen > active ==> ahead == kept(before.take(active as int), place@).len(),
                forall|i: int| 0 <= i < self.list@.len() ==> (#[trigger] self.list@[i]).wf(),
            decreases count - seen,
        {
            let ghost list = self.list@;
            assert(self.list@[at as int] == before[seen as int]);
            assert(before.take(seen + 1).drop_last() =~= before.take(seen as int));
            if seen == active {
                ahead = at;
            }
            if under(&self.list[at], place) {
                let gone = self.list.remove(at);
                assert(self.list@ =~= kept(before.take(seen + 1), place@) + before.skip(seen + 1));
                assert forall|i: int| 0 <= i < self.list@.len() implies (
                #[trigger] self.list@[i]).wf() by {
                    if i < at {
                        assert(self.list@[i] == list[i]);
                    } else {
                        assert(self.list@[i] == list[i + 1]);
                    }
                }
            } else {
                assert(self.list@ =~= kept(before.take(seen + 1), place@) + before.skip(seen + 1));
                at += 1;
            }
            seen += 1;
            if seen <= active {
                ahead = at;
            }
        }
        assert(before.take(count as int) =~= before);
        assert(self.list@ =~= kept(before, place@));
        proof {
            kept_grows(before, place@, active as int, count as int);
        }
        if self.list.len() == 0 {
            self.list.push(Buffer::new(fresh));
            self.active = 0;
        } else if ahead < self.list.len() {
            self.active = ahead;
        } else {
            self.active = self.list.len() - 1;
        }
    }
}

/// Whether `after` is `before` with the documents under `place` closed in every
/// pane. Each pane that is left empty gets a blank document of its own.
pub open spec fn clears_panes(after: State, before: State, place: Seq<char>, fresh: u64) -> bool {
    &&& clears(after.pane.docs, before.pane.docs, place, fresh)
    &&& after.panes@.len() == before.panes@.len()
    &&& forall|i: int|
        0 <= i < before.panes@.len() ==> {
            &&& clears(
                (#[trigger] after.panes@[i]).docs,
                before.panes@[i].docs,
                place,
                (fresh + 1 + i) as u64,
            )
            &&& after.panes@[i] == (PaneStore { docs: after.panes@[i].docs, ..before.panes@[i] })
        }
    &&& after == (State { panes: after.panes, ..before.with_docs(after.pane.docs) })
}

/// Closes the documents under `place` in every pane.
fn clear_panes(state: &mut State, place: &str, fresh: u64)
    requires
        old(state).wf(),
        fresh + 4 <= u64::MAX,
    ensures
        final(state).wf(),
        clears_panes(*final(state), *old(state), place@, fresh),
{
    let ghost before = *state;
    state.pane.docs.close_under(place, fresh);
    let mut i: usize = 0;
    while i < state.panes.len()
        invariant
            before.wf(),
            fresh + 4 <= u64::MAX,
            i <= state.panes@.len() == before.panes@.len(),
            clears(state.pane.docs, before.pane.docs, place@, fresh),
            state.pane.docs.wf(),
            *state == (State { panes: state.panes, ..before.with_docs(state.pane.docs) }),
            forall|j: int|
                0 <= j < i ==> {
                    &&& clears(
                        (#[trigger] state.panes@[j]).docs,
                        before.panes@[j].docs,
                        place@,
                        (fresh + 1 + j) as u64,
                    )
                    &&& state.panes@[j].docs.wf()
                    &&& state.panes@[j] == (PaneStore {
                        docs: state.panes@[j].docs,
                        ..before.panes@[j]
                    })
                },
            forall|j: int|
                i <= j < before.panes@.len() ==> #[trigger] state.panes@[j] == before.panes@[j],
        decreases state.panes@.len() - i,
    {
        assert(state.panes@[i as int] == before.panes@[i as int]);
        state.panes[i].docs.close_under(place, fresh + 1 + i as u64);
        i += 1;
    }
}

/// Whether a document in some pane has unsaved changes and lies under `place`.
pub open spec fn unsaved_under(state: State, place: Seq<char>) -> bool {
    ||| state.pane.docs.dirty_under(place)
    ||| exists|p: int|
        0 <= p < state.panes@.len() && (#[trigger] state.panes@[p]).docs.dirty_under(place)
}

/// See [`unsaved_under`].
fn any_unsaved_under(state: &State, place: &str) -> (r: bool)
    ensures
        r == unsaved_under(*state, place@),
{
    if state.pane.docs.has_dirty_under(place) {
        return true;
    }
    let mut p: usize = 0;
    while p < state.panes.len()
        invariant
            p <= state.panes@.len(),
            !state.pane.docs.dirty_under(place@),
            forall|q: int|
                0 <= q < p ==> !(#[trigger] state.panes@[q]).docs.dirty_under(place@),
        decreases state.panes@.len() - p,
    {
        if state.panes[p].docs.has_dirty_under(place) {
            return true;
        }
        p += 1;
    }
    false
}

/// What moving the selected item to the Trash comes to.
pub enum Trash {
    /// Nothing is selected.
    Nothing,
    /// Unsaved changes stand in the way.
    Blocked(Question),
    /// Ask; on the first button, move the item at this place.
    Ask(Question, String),
}

/// Whether `q` says `title` and `detail` and offers `buttons`.
pub open spec fn asks(q: Question, title: Seq<char>, detail: Seq<char>, buttons: Seq<Seq<char>>) -> bool {
    &&& q.message@ == title
    &&& q.detail@ == detail
    &&& path::texts(q.buttons@) == buttons
}

impl EditorView {
    /// Move to Trash. `key` is what the file system knows the selected item
    /// as.
    ///
    /// Unsaved changes under the item are in the way: its tabs would be closed
    /// with it.
    pub fn action_trash_project_item(&self, key: &str) -> (trash: Trash)
        requires
            self.state.wf(),
        ensures
            match self.state.tree_path() {
                None => trash is Nothing,
                Some(place) => if unsaved_under(self.state, key@) {
                    &&& trash matches Trash::Blocked(q)
                    &&& asks(
                        q,
                        "Unsaved changes are open"@,
                        "Save or close the affected tabs before moving this item to Trash."@,
                        seq!["OK"@],
                    )
                } else {
                    &&& trash matches Trash::Ask(q, item)
                    &&& item == place
                    &&& asks(
                        q,
                        "Move \u{201c}"@ + path::shown_name(place@) + "\u{201d} to Trash?"@,
                        "The item can be recovered from the Trash."@,
                        seq!["Move to Trash"@, "Cancel"@],
                    )
                },
            },
    {
        let item = match self.state.side.tree.selected {
            Some(i) => if i < self.state.side.tree.rows.len() {
                self.state.side.tree.rows[i].path.clone()
            } else {
                return Trash::Nothing;
            },
            None => {
                return Trash::Nothing;
            },
        };
        let mut buttons: Vec<String> = Vec::new();
        if any_unsaved_under(&self.state, key) {
            buttons.push("OK".to_owned());
            assert(path::texts(buttons@) =~= seq!["OK"@]);
            return Trash::Blocked(
                Question {
                    message: "Unsaved changes are open".to_owned(),
                    detail: "Save or close the affected tabs before moving this item to Trash.".to_owned(),
                    buttons,
                },
            );
        }
        buttons.push("Move to Trash".to_owned());
        buttons.push("Cancel".to_owned());
        assert(path::texts(buttons@) =~= seq!["Move to Trash"@, "Cancel"@]);
        let name = display_name(item.as_str());
        Trash::Ask(
            Question {
                message: joined3("Move \u{201c}", name.as_str(), "\u{201d} to Trash?"),
                detail: "The item can be recovered from the Trash.".to_owned(),
                buttons,
            },
            item,
        )
    }

    /// This is `before` without the tabs of an item that went to the Trash.
    pub open spec fn loses_item(
        &self,
        before: EditorView,
        key: Seq<char>,
        name: Seq<char>,
        fresh: u64,
        now: u64,
    ) -> bool {
        exists|cleared: State, said: EditorView, reread: EditorView|
            {
                &&& #[trigger] clears_panes(cleared, before.state, key, fresh)
                &&& said.state.says("moved "@ + name + " to Trash"@, now)
                &&& #[trigger] said.becomes(
                    before,
                    cleared.presented().saying(said.state.status.message->0),
                    Seq::empty(),
                )
                &&& #[trigger] reread.rereads(said)
                &&& self.shows(
                    reread,
                    reread.state,
                    seq![Effect::SyncTitle, Effect::Run(Task::Reparse)],
                    now,
                )
            }
    }

    /// How moving an item to the Trash went: its tabs are closed, in every
    /// pane. Blank documents, where some are needed, are `fresh` and the ids
    /// after it.
    pub fn item_trashed(
        &mut self,
        key: &str,
        name: &str,
        result: Result<(), String>,
        fresh: u64,
        now: u64,
    )
        requires
            old(self).state.wf(),
            fresh + 4 <= u64::MAX,
        ensures
            final(self).state.wf(),
            match result {
                Ok(_) => final(self).loses_item(*old(self), key@, name@, fresh, now),
                Err(error) => {
                    &&& final(self).state.says("could not move to Trash: "@ + error@, now)
                    &&& final(self).shows(
                        *old(self),
                        old(self).state.saying(final(self).state.status.message->0),
                        Seq::empty(),
                        now,
                    )
                },
            },
    {
        match result {
            Ok(_) => {
                self.lose_item(key, name, fresh, now);
            },
            Err(error) => {
                self.say(joined("could not move to Trash: ", error.as_str()), now);
                self.show(now);
                assert(self.effects@ =~= old(self).effects@ + (Seq::<Effect>::empty() + old(
                    self,
                ).pumping(now)));
            },
        }
    }

    /// Closes the tabs of an item that went to the Trash.
    fn lose_item(&mut self, key: &str, name: &str, fresh: u64, now: u64)
        requires
            old(self).state.wf(),
            fresh + 4 <= u64::MAX,
        ensures
            final(self).state.wf(),
            final(self).loses_item(*old(self), key@, name@, fresh, now),
    {
        clear_panes(&mut self.state, key, fresh);
        let ghost cleared = self.state;
        assert(clears_panes(cleared, old(self).state, key@, fresh));
        present(&mut self.state);
        self.say(joined3("moved ", name, " to Trash"), now);
        let ghost said = *self;
        assert(said.effects@ =~= old(self).effects@ + Seq::<Effect>::empty());
        assert(said.becomes(
            *old(self),
            cleared.presented().saying(said.state.status.message->0),
            Seq::empty(),
        ));
        self.refresh_project_after_disk_change();
        let ghost reread = *self;
        assert(reread.rereads(said));
        self.effects.push(Effect::SyncTitle);
        self.effects.push(Effect::Run(Task::Reparse));
        let ghost done = seq![Effect::SyncTitle, Effect::Run(Task::Reparse)];
        assert(self.effects@ =~= reread.effects@ + done);
        self.show(now);
        assert(self.effects@ =~= reread.effects@ + (done + reread.pumping(now)));
    }
}

/// What stays open after an item went to the Trash was open before, and lies
/// elsewhere.
pub proof fn only_the_item_is_closed(list: Seq<Buffer>, place: Seq<char>, i: int)
    requires
        0 <= i < kept(list, place).len(),
    ensures
        !lies_under(kept(list, place)[i], place),
        list.contains(kept(list, place)[i]),
    decreases list.len(),
{
    let rest = kept(list.drop_last(), place);
    if i < rest.len() {
        only_the_item_is_closed(list.drop_last(), place, i);
        let at = choose|j: int|
            0 <= j < list.drop_last().len() && list.drop_last()[j] == rest[i];
        assert(list[at] == rest[i]);
    } else {
        assert(list[list.len() - 1] == kept(list, place)[i]);
    }
}

/// A document that lies elsewhere stays open.
pub proof fn a_document_elsewhere_stays(list: Seq<Buffer>, place: Seq<char>, i: int)
    requires
        0 <= i < list.len(),
        !lies_under(list[i], place),
    ensures
        kept(list, place).contains(list[i]),
    decreases list.len(),
{
    let rest = kept(list.drop_last(), place);
    if i < list.len() - 1 {
        a_document_elsewhere_stays(list.drop_last(), place, i);
        let at = choose|j: int| 0 <= j < rest.len() && rest[j] == list[i];
        assert(kept(list, place)[at] == list[i]);
    } else {
        assert(kept(list, place)[rest.len() as int] == list[i]);
    }
}

} // verus!
