//! The tabs of one pane. There is always at least one document; closing the
//! last leaves a blank one, which is the home screen.

use crate::buffer::{Buffer, Edit};
use vstd::prelude::*;

verus! {

/// The open documents of a pane and which of them is in front.
pub struct Documents {
    pub list: Vec<Buffer>,
    pub active: usize,
}

/// The first position whose document satisfies `hit`.
pub open spec fn first_where(list: Seq<Buffer>, hit: spec_fn(Buffer) -> bool) -> Option<int>
    decreases list.len(),
{
    if list.len() == 0 {
        None
    } else {
        match first_where(list.drop_last(), hit) {
            Some(at) => Some(at),
            None => if hit(list.last()) {
                Some(list.len() - 1)
            } else {
                None
            },
        }
    }
}

/// What [`first_where`] finds is the first.
pub proof fn first_where_is_first(list: Seq<Buffer>, hit: spec_fn(Buffer) -> bool)
    ensures
        match first_where(list, hit) {
            Some(at) => 0 <= at < list.len() && hit(list[at]) && forall|i: int|
                0 <= i < at ==> !hit(#[trigger] list[i]),
            None => forall|i: int| 0 <= i < list.len() ==> !hit(#[trigger] list[i]),
        },
    decreases list.len(),
{
    if list.len() > 0 {
        let head = list.drop_last();
        first_where_is_first(head, hit);
        assert(forall|i: int| 0 <= i < head.len() ==> head[i] == list[i]);
    }
}

/// There is only one first.
pub proof fn first_where_unique(list: Seq<Buffer>, hit: spec_fn(Buffer) -> bool, at: int)
    requires
        0 <= at < list.len(),
        hit(list[at]),
        forall|i: int| 0 <= i < at ==> !hit(#[trigger] list[i]),
    ensures
        first_where(list, hit) == Some(at),
{
    first_where_is_first(list, hit);
}

/// None is first when none qualifies.
pub proof fn first_where_none(list: Seq<Buffer>, hit: spec_fn(Buffer) -> bool)
    requires
        forall|i: int| 0 <= i < list.len() ==> !hit(#[trigger] list[i]),
    ensures
        first_where(list, hit) is None,
{
    first_where_is_first(list, hit);
}

impl Documents {
    /// There is a document in front, and every document is sound.
    pub open spec fn wf(&self) -> bool {
        &&& self.active < self.list@.len()
        &&& forall|i: int| 0 <= i < self.list@.len() ==> (#[trigger] self.list@[i]).wf()
    }

    /// The document in front.
    pub open spec fn front(&self) -> Buffer {
        self.list@[self.active as int]
    }

    /// This is `before` with the document in front replaced by `front`.
    pub open spec fn fronts(&self, before: Documents, front: Buffer) -> bool {
        &&& self.active == before.active
        &&& self.list@ == before.list@.update(before.active as int, front)
    }

    /// Nothing open: one document, without name, text or changes.
    pub open spec fn at_home(&self) -> bool {
        &&& self.list@.len() == 1
        &&& self.list@[0].path is None
        &&& self.list@[0].label is None
        &&& self.list@[0].text@.len() == 0
        &&& !self.list@[0].dirty
    }

    /// Where a document with unsaved changes is, the first of them.
    pub open spec fn first_dirty(&self) -> Option<int> {
        first_where(self.list@, |b: Buffer| b.dirty)
    }

    /// Where the document at `place` is.
    pub open spec fn position_at(&self, place: Seq<char>) -> Option<int> {
        first_where(self.list@, |b: Buffer| b.is_at(place))
    }

    /// Where the document titled `title` is.
    pub open spec fn position_labelled(&self, title: Seq<char>) -> Option<int> {
        first_where(self.list@, |b: Buffer| b.is_titled(title))
    }

    /// Where the document `id` is.
    pub open spec fn position_with(&self, id: u64) -> Option<int> {
        first_where(self.list@, |b: Buffer| b.id == id)
    }

    /// The active tab once tab `index` is gone.
    pub open spec fn active_without(&self, index: int) -> usize {
        if index < self.active {
            (self.active - 1) as usize
        } else if self.active as int == self.list@.len() - 1 && self.active > 0 && index
            == self.active {
            (self.active - 1) as usize
        } else {
            self.active
        }
    }

    /// One document, in front.
    pub fn new(first: Buffer) -> (docs: Documents)
        requires
            first.wf(),
        ensures
            docs.wf(),
            docs.list@ == seq![first],
            docs.active == 0,
    {
        let mut list: Vec<Buffer> = Vec::new();
        list.push(first);
        assert(list@ =~= seq![first]);
        Documents { list, active: 0 }
    }

    /// The document in front.
    pub fn active(&self) -> (b: &Buffer)
        requires
            self.wf(),
        ensures
            *b == self.front(),
    {
        &self.list[self.active]
    }

    /// Selects in the document in front.
    pub fn select_in_front(&mut self, anchor: usize, cursor: usize)
        requires
            old(self).wf(),
        ensures
            final(self).wf(),
            final(self).fronts(*old(self), old(self).front().selecting(anchor, cursor)),
    {
        let at: usize = self.active;
        self.list[at].select_range(anchor, cursor);
    }

    /// Replaces a range of the document in front, unless it is read-only.
    pub fn splice_in_front(&mut self, start: usize, end: usize, with: &Vec<u8>)
        requires
            old(self).wf(),
            start <= end <= old(self).front().text@.len(),
            old(self).front().text@.len() + with@.len() <= usize::MAX,
        ensures
            final(self).wf(),
            final(self).fronts(*old(self), final(self).front()),
            final(self).front().splices(old(self).front(), start, end, with@),
    {
        let at: usize = self.active;
        self.list[at].splice(start, end, with);
    }

    /// Carries out edits in the document in front. Returns how many.
    pub fn replace_in_front(&mut self, edits: &Vec<Edit>) -> (count: usize)
        requires
            old(self).wf(),
        ensures
            final(self).wf(),
            count == old(self).front().taken(edits@),
            final(self).fronts(*old(self), final(self).front()),
            count == 0 ==> final(self).front() == old(self).front(),
            count > 0 ==> crate::places::edited_by(
                final(self).front(),
                old(self).front(),
                edits@,
            ),
    {
        let at: usize = self.active;
        self.list[at].replace_ranges(edits)
    }

    /// How many documents there are.
    pub fn len(&self) -> (n: usize)
        ensures
            n == self.list@.len(),
    {
        self.list.len()
    }

    /// The position of the document in front.
    pub fn active_index(&self) -> (n: usize)
        ensures
            n == self.active,
    {
        self.active
    }

    /// Whether nothing is open.
    pub fn is_home(&self) -> (r: bool)
        ensures
            r == self.at_home(),
    {
        self.list.len() == 1 && self.list[0].path.is_none() && self.list[0].label.is_none()
            && self.list[0].text.len() == 0 && !self.list[0].dirty
    }

    /// Brings tab `index` to the front. Returns whether there is such a tab.
    pub fn switch(&mut self, index: usize) -> (ok: bool)
        requires
            old(self).wf(),
        ensures
            final(self).wf(),
            ok == (index < old(self).list@.len()),
            *final(self) == (Documents {
                active: if ok {
                    index
                } else {
                    old(self).active
                },
                ..*old(self)
            }),
    {
        if index < self.list.len() {
            self.active = index;
            true
        } else {
            false
        }
    }

    /// The next tab to the right, or to the left, around the ends.
    pub fn cycle(&mut self, forward: bool)
        requires
            old(self).wf(),
        ensures
            final(self).wf(),
            *final(self) == (Documents { active: final(self).active, ..*old(self) }),
            final(self).active == crate::actions::cycled(
                old(self).active as int,
                old(self).list@.len() as int,
                forward,
            ),
    {
        let n: usize = self.list.len();
        proof {
            let a = self.active as int;
            if forward {
                if a + 1 < n {
                    vstd::arithmetic::div_mod::lemma_small_mod((a + 1) as nat, n as nat);
                } else {
                    vstd::arithmetic::div_mod::lemma_mod_self_0(n as int);
                }
            } else if a == 0 {
                vstd::arithmetic::div_mod::lemma_small_mod((n - 1) as nat, n as nat);
            } else {
                vstd::arithmetic::div_mod::lemma_mod_add_multiples_vanish(a - 1, n as int);
                vstd::arithmetic::div_mod::lemma_small_mod((a - 1) as nat, n as nat);
                assert((a + n - 1) % (n as int) == (a - 1) % (n as int));
            }
        }
        if forward {
            self.active = if self.active + 1 < n {
                self.active + 1
            } else {
                0
            };
        } else {
            self.active = if self.active > 0 {
                self.active - 1
            } else {
                n - 1
            };
        }
    }

    /// Adds a tab at the end and brings it to the front. On the home screen
    /// it takes the place of the blank document.
    pub fn push(&mut self, buffer: Buffer)
        requires
            old(self).wf(),
            buffer.wf(),
        ensures
            final(self).wf(),
            old(self).at_home() ==> final(self).list@ == seq![buffer] && final(self).active == 0,
            !old(self).at_home() ==> final(self).list@ == old(self).list@.push(buffer)
                && final(self).active == old(self).list@.len(),
            final(self).front() == buffer,
    {
        if self.is_home() {
            self.list.clear();
            self.list.push(buffer);
            self.active = 0;
            assert(self.list@ =~= seq![buffer]);
        } else {
            self.list.push(buffer);
            self.active = self.list.len() - 1;
        }
    }

    /// The tab whose document is at `place`.
    pub fn index_of(&self, place: &str) -> (at: Option<usize>)
        ensures
            match (at, self.position_at(place@)) {
                (Some(at), Some(i)) => at == i,
                (None, None) => true,
                _ => false,
            },
            at matches Some(at) ==> at < self.list@.len(),
    {
        let ghost hit = |b: Buffer| b.is_at(place@);
        let mut i: usize = 0;
        while i < self.list.len()
            invariant
                i <= self.list@.len(),
                hit == (|b: Buffer| b.is_at(place@)),
                forall|j: int| 0 <= j < i ==> !hit(#[trigger] self.list@[j]),
            decreases self.list@.len() - i,
        {
            if self.list[i].at_path(place) {
                proof {
                    first_where_unique(self.list@, hit, i as int);
                }
                return Some(i);
            }
            i += 1;
        }
        proof {
            first_where_none(self.list@, hit);
        }
        None
    }

    /// The tab of the document `id`.
    pub fn index_with(&self, id: u64) -> (at: Option<usize>)
        ensures
            match (at, self.position_with(id)) {
                (Some(at), Some(i)) => at == i,
                (None, None) => true,
                _ => false,
            },
            at matches Some(at) ==> at < self.list@.len() && self.list@[at as int].id == id,
    {
        let ghost hit = |b: Buffer| b.id == id;
        let mut i: usize = 0;
        while i < self.list.len()
            invariant
                i <= self.list@.len(),
                hit == (|b: Buffer| b.id == id),
                forall|j: int| 0 <= j < i ==> !hit(#[trigger] self.list@[j]),
            decreases self.list@.len() - i,
        {
            if self.list[i].id == id {
                proof {
                    first_where_unique(self.list@, hit, i as int);
                }
                return Some(i);
            }
            i += 1;
        }
        proof {
            first_where_none(self.list@, hit);
        }
        None
    }

    /// The tab titled `title`.
    pub fn index_of_label(&self, title: &str) -> (at: Option<usize>)
        ensures
            match (at, self.position_labelled(title@)) {
                (Some(at), Some(i)) => at == i,
                (None, None) => true,
                _ => false,
            },
            at matches Some(at) ==> at < self.list@.len(),
    {
        let ghost hit = |b: Buffer| b.is_titled(title@);
        let mut i: usize = 0;
        while i < self.list.len()
            invariant
                i <= self.list@.len(),
                hit == (|b: Buffer| b.is_titled(title@)),
                forall|j: int| 0 <= j < i ==> !hit(#[trigger] self.list@[j]),
            decreases self.list@.len() - i,
        {
            if self.list[i].has_label(title) {
                proof {
                    first_where_unique(self.list@, hit, i as int);
                }
                return Some(i);
            }
            i += 1;
        }
        proof {
            first_where_none(self.list@, hit);
        }
        None
    }

    /// The first tab with unsaved changes.
    pub fn dirty_index(&self) -> (at: Option<usize>)
        ensures
            match (at, self.first_dirty()) {
                (Some(at), Some(i)) => at == i,
                (None, None) => true,
                _ => false,
            },
            at matches Some(at) ==> at < self.list@.len() && self.list@[at as int].dirty,
            at is None ==> forall|i: int| 0 <= i < self.list@.len() ==> !(#[trigger] self.list@[i]).dirty,
    {
        let ghost hit = |b: Buffer| b.dirty;
        let mut i: usize = 0;
        while i < self.list.len()
            invariant
                i <= self.list@.len(),
                hit == (|b: Buffer| b.dirty),
                forall|j: int| 0 <= j < i ==> !hit(#[trigger] self.list@[j]),
            decreases self.list@.len() - i,
        {
            if self.list[i].dirty {
                proof {
                    first_where_unique(self.list@, hit, i as int);
                }
                return Some(i);
            }
            i += 1;
        }
        proof {
            first_where_none(self.list@, hit);
            assert forall|i: int| 0 <= i < self.list@.len() implies !(
            #[trigger] self.list@[i]).dirty by {
                assert(!hit(self.list@[i]));
            }
        }
        None
    }

    /// Closes tab `index` and returns its document. When it was the only one
    /// `blank` takes its place.
    pub fn close(&mut self, index: usize, blank: Buffer) -> (closed: Option<Buffer>)
        requires
            old(self).wf(),
            blank.wf(),
        ensures
            final(self).wf(),
            index >= old(self).list@.len() ==> closed is None && *final(self) == *old(self),
            index < old(self).list@.len() ==> closed == Some(old(self).list@[index as int]),
            index < old(self).list@.len() && old(self).list@.len() == 1 ==> final(self).list@
                == seq![blank] && final(self).active == 0,
            index < old(self).list@.len() && old(self).list@.len() > 1 ==> final(self).list@
                == old(self).list@.remove(index as int) && final(self).active
                == old(self).active_without(index as int),
    {
        if index >= self.list.len() {
            return None;
        }
        if self.list.len() == 1 {
            let closed = self.list.pop();
            self.list.push(blank);
            assert(self.list@ =~= seq![blank]);
            self.active = 0;
            return closed;
        }
        let last = self.list.len() - 1;
        let closed = self.list.remove(index);
        if index < self.active || (index == self.active && self.active == last) {
            self.active -= 1;
        }
        Some(closed)
    }

    /// Moves tab `from` to position `to`; the document in front stays in
    /// front. Returns whether anything moved.
    pub fn move_tab(&mut self, from: usize, to: usize) -> (moved: bool)
        requires
            old(self).wf(),
        ensures
            final(self).wf(),
            moved == (from != to && from < old(self).list@.len() && to < old(self).list@.len()),
            !moved ==> *final(self) == *old(self),
            moved ==> final(self).list@ == old(self).list@.remove(from as int).insert(
                to as int,
                old(self).list@[from as int],
            ),
            final(self).front() == old(self).front(),
    {
        if from == to || from >= self.list.len() || to >= self.list.len() {
            return false;
        }
        let buffer = self.list.remove(from);
        self.list.insert(to, buffer);
        if self.active == from {
            self.active = to;
        } else if from < self.active && self.active <= to {
            self.active -= 1;
        } else if to <= self.active && self.active < from {
            self.active += 1;
        }
        true
    }
}

/// Where a document at `place` is once `from` has become `to`: at `to` when it
/// was the item itself, at the same place below it when it was inside.
pub open spec fn moved_place(place: Seq<char>, from: Seq<char>, to: Seq<char>) -> Seq<char> {
    if crate::path::same_path(place, from) {
        to
    } else if crate::path::is_within(place, from) {
        crate::path::join_of(
            to,
            crate::path::spelled(
                crate::path::components(place).skip(crate::path::components(from).len() as int),
            ),
        )
    } else {
        place
    }
}

/// Whether `after` is `before` once `from` has become `to`.
pub open spec fn follows_move(
    after: Buffer,
    before: Buffer,
    from: Seq<char>,
    to: Seq<char>,
) -> bool {
    &&& after == (Buffer { path: after.path, ..before })
    &&& match (after.path, before.path) {
        (Some(new), Some(old)) => new@ == moved_place(old@, from, to),
        (None, None) => true,
        _ => false,
    }
}

impl Documents {
    /// Whether a document at `place` or below it has unsaved changes.
    pub open spec fn dirty_under(&self, place: Seq<char>) -> bool {
        exists|i: int|
            0 <= i < self.list@.len() && (#[trigger] self.list@[i]).dirty && (
            self.list@[i].path matches Some(own) && crate::path::is_within(own@, place))
    }

    /// See [`Documents::dirty_under`].
    pub fn has_dirty_under(&self, place: &str) -> (r: bool)
        ensures
            r == self.dirty_under(place@),
    {
        let mut i: usize = 0;
        while i < self.list.len()
            invariant
                i <= self.list@.len(),
                forall|j: int|
                    0 <= j < i ==> !((#[trigger] self.list@[j]).dirty && (
                    self.list@[j].path matches Some(own) && crate::path::is_within(
                        own@,
                        place@,
                    ))),
            decreases self.list@.len() - i,
        {
            if self.list[i].dirty {
                if let Some(own) = &self.list[i].path {
                    if crate::path::path_within(own.as_str(), place) {
                        return true;
                    }
                }
            }
            i += 1;
        }
        false
    }

    /// Gives the documents at `from` and below it their places once it has
    /// become `to`.
    pub fn rename_path(&mut self, from: &str, to: &str)
        requires
            old(self).wf(),
        ensures
            final(self).wf(),
            final(self).active == old(self).active,
            final(self).list@.len() == old(self).list@.len(),
            forall|i: int|
                0 <= i < old(self).list@.len() ==> follows_move(
                    #[trigger] final(self).list@[i],
                    old(self).list@[i],
                    from@,
                    to@,
                ),
    {
        let ghost before = self.list@;
        let mut i: usize = 0;
        while i < self.list.len()
            invariant
                before == old(self).list@,
                self.active == old(self).active,
                i <= self.list@.len() == before.len(),
                forall|j: int|
                    0 <= j < i ==> follows_move(#[trigger] self.list@[j], before[j], from@, to@),
                forall|j: int| i <= j < before.len() ==> #[trigger] self.list@[j] == before[j],
            decreases self.list@.len() - i,
        {
            let moved: Option<String> = match &self.list[i].path {
                None => None,
                Some(own) => if crate::path::path_eq(own.as_str(), from) {
                    Some(to.to_owned())
                } else {
                    match crate::path::strip_prefix(own.as_str(), from) {
                        Some(rest) => Some(crate::path::join(to, rest.as_str())),
                        None => Some(own.clone()),
                    }
                },
            };
            self.list[i].path = moved;
            i += 1;
        }
        assert forall|j: int| 0 <= j < self.list@.len() implies (#[trigger] self.list@[j]).wf() by {
            assert(follows_move(self.list@[j], before[j], from@, to@));
            assert(before[j].wf());
        }
    }
}

} // verus!
