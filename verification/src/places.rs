//! Which open document a file is.

use crate::buffer::{self, Buffer, Edit};
use crate::documents::{self, Documents};
use crate::panes::PaneStore;
use crate::path;
use crate::state::State;
use vstd::prelude::*;

verus! {

/// A file, and the open documents that are it under another name.
pub struct FilePlace {
    pub path: String,
    /// The open documents whose paths lead to the same file.
    pub same: Vec<u64>,
}

/// Whether `after` is `before` with `edits` made, as one step, and unsaved.
pub open spec fn edited_by(after: Buffer, before: Buffer, edits: Seq<Edit>) -> bool {
    &&& after.text@ == buffer::edited(before.text@, edits, 0)
    &&& after == (Buffer {
        text: after.text,
        cursor: after.within(before.cursor),
        anchor: after.within(before.anchor),
        dirty: true,
        ..before
    })
}

/// Whether `after` is `before` with `document` at place `i`.
pub open spec fn docs_with(after: Documents, before: Documents, i: int, document: Buffer) -> bool {
    &&& after.active == before.active
    &&& after.list@ == before.list@.update(i, document)
}

impl FilePlace {
    /// Whether `b` is the file.
    pub open spec fn is_of(&self, b: Buffer) -> bool {
        b.path matches Some(own) && (path::same_path(own@, self.path@) || self.same@.contains(b.id))
    }

    /// See [`FilePlace::is_of`].
    pub fn fits_document(&self, b: &Buffer) -> (r: bool)
        ensures
            r == self.is_of(*b),
    {
        if b.path.is_none() {
            return false;
        }
        if b.at_path(self.path.as_str()) {
            return true;
        }
        let mut i: usize = 0;
        while i < self.same.len()
            invariant
                i <= self.same@.len(),
                b.path is Some,
                !b.is_at(self.path@),
                forall|j: int| 0 <= j < i ==> self.same@[j] != b.id,
            decreases self.same@.len() - i,
        {
            if self.same[i] == b.id {
                return true;
            }
            i += 1;
        }
        false
    }

    /// Its place in `docs`.
    pub open spec fn place_in(&self, docs: Documents) -> Option<int> {
        documents::first_where(docs.list@, |b: Buffer| self.is_of(b))
    }

    /// See [`FilePlace::place_in`].
    pub fn find_in(&self, docs: &Documents) -> (at: Option<usize>)
        ensures
            match (at, self.place_in(*docs)) {
                (Some(i), Some(j)) => i == j && i < docs.list@.len(),
                (None, None) => true,
                _ => false,
            },
    {
        let ghost hit = |b: Buffer| self.is_of(b);
        let mut i: usize = 0;
        while i < docs.list.len()
            invariant
                i <= docs.list@.len(),
                hit == (|b: Buffer| self.is_of(b)),
                forall|j: int| 0 <= j < i ==> !hit(#[trigger] docs.list@[j]),
            decreases docs.list@.len() - i,
        {
            if self.fits_document(&docs.list[i]) {
                proof {
                    documents::first_where_unique(docs.list@, hit, i as int);
                }
                return Some(i);
            }
            i += 1;
        }
        proof {
            documents::first_where_none(docs.list@, hit);
        }
        None
    }

    /// Its pane among `panes`, the first that has it.
    pub open spec fn pane_in(&self, panes: Seq<PaneStore>) -> Option<int>
        decreases panes.len(),
    {
        if panes.len() == 0 {
            None
        } else {
            match self.pane_in(panes.drop_last()) {
                Some(p) => Some(p),
                None => if self.place_in(panes.last().docs) is Some {
                    Some(panes.len() - 1)
                } else {
                    None
                },
            }
        }
    }

    /// See [`FilePlace::pane_in`].
    pub fn find_pane(&self, panes: &Vec<PaneStore>) -> (found: Option<(usize, usize)>)
        ensures
            match (found, self.pane_in(panes@)) {
                (Some((p, i)), Some(q)) => p == q && p < panes@.len() && self.place_in(
                    panes@[q].docs,
                ) == Some(i as int) && i < panes@[q].docs.list@.len(),
                (None, None) => true,
                _ => false,
            },
    {
        let mut found: Option<(usize, usize)> = None;
        let mut p: usize = 0;
        assert(panes@.take(0) =~= Seq::empty());
        while p < panes.len()
            invariant
                p <= panes@.len(),
                match (found, self.pane_in(panes@.take(p as int))) {
                    (Some((a, i)), Some(b)) => a == b && a < p && self.place_in(panes@[b].docs)
                        == Some(i as int) && i < panes@[b].docs.list@.len(),
                    (None, None) => true,
                    _ => false,
                },
            decreases panes@.len() - p,
        {
            assert(panes@.take(p + 1).drop_last() =~= panes@.take(p as int));
            if found.is_none() {
                if let Some(i) = self.find_in(&panes[p].docs) {
                    found = Some((p, i));
                }
            }
            p += 1;
        }
        assert(panes@.take(panes@.len() as int) =~= panes@);
        found
    }

    /// The open document that is the file: the focused pane's first, then the
    /// others'.
    pub open spec fn document_in(&self, state: State) -> Option<Buffer> {
        match self.place_in(state.pane.docs) {
            Some(i) => Some(state.pane.docs.list@[i]),
            None => match self.pane_in(state.panes@) {
                Some(p) => {
                    let docs = state.panes@[p].docs;
                    Some(docs.list@[self.place_in(docs)->0])
                },
                None => None,
            },
        }
    }

    /// See [`FilePlace::document_in`].
    pub fn find_document<'a>(&self, state: &'a State) -> (found: Option<&'a Buffer>)
        ensures
            match (found, self.document_in(*state)) {
                (Some(b), Some(document)) => *b == document,
                (None, None) => true,
                _ => false,
            },
    {
        if let Some(i) = self.find_in(&state.pane.docs) {
            return Some(&state.pane.docs.list[i]);
        }
        match self.find_pane(&state.panes) {
            Some((p, i)) => Some(&state.panes[p].docs.list[i]),
            None => None,
        }
    }

    /// Whether `after` is `before` with `document` in place of the open
    /// document that is the file.
    pub open spec fn put_in(&self, after: State, before: State, document: Buffer) -> bool {
        match self.place_in(before.pane.docs) {
            Some(i) => {
                &&& docs_with(after.pane.docs, before.pane.docs, i, document)
                &&& after == before.with_docs(after.pane.docs)
            },
            None => match self.pane_in(before.panes@) {
                Some(p) => {
                    let docs = before.panes@[p].docs;
                    &&& docs_with(after.panes@[p].docs, docs, self.place_in(docs)->0, document)
                    &&& after.panes@ == before.panes@.update(
                        p,
                        PaneStore { docs: after.panes@[p].docs, ..before.panes@[p] },
                    )
                    &&& after == (State { panes: after.panes, ..before })
                },
                None => after == before,
            },
        }
    }

    /// Puts `document` in place of the open document that is the file.
    pub fn put(&self, state: &mut State, document: Buffer)
        requires
            old(state).wf(),
            document.wf(),
        ensures
            final(state).wf(),
            self.put_in(*final(state), *old(state), document),
    {
        if let Some(i) = self.find_in(&state.pane.docs) {
            state.pane.docs.list[i] = document;
            return;
        }
        if let Some((p, i)) = self.find_pane(&state.panes) {
            state.panes[p].docs.list[i] = document;
        }
    }

    /// Makes `edits` in the open document that is the file, unless it is
    /// read-only. Returns its id and how many edits went into it.
    pub fn edit(&self, state: &mut State, edits: &Vec<Edit>) -> (done: Option<(u64, usize)>)
        requires
            old(state).wf(),
        ensures
            final(state).wf(),
            match (done, self.document_in(*old(state))) {
                (Some((id, n)), Some(b)) => {
                    &&& id == b.id
                    &&& n == b.taken(edits@)
                    &&& n > 0 ==> self.edits_in(*final(state), *old(state), edits@)
                    &&& n == 0 ==> *final(state) == *old(state)
                },
                (None, None) => *final(state) == *old(state),
                _ => false,
            },
    {
        if let Some(i) = self.find_in(&state.pane.docs) {
            let id = state.pane.docs.list[i].id;
            let n = state.pane.docs.list[i].count_taken(edits);
            if n > 0 {
                let count = state.pane.docs.list[i].replace_ranges(edits);
            }
            return Some((id, n));
        }
        if let Some((p, i)) = self.find_pane(&state.panes) {
            let id = state.panes[p].docs.list[i].id;
            let n = state.panes[p].docs.list[i].count_taken(edits);
            if n > 0 {
                let count = state.panes[p].docs.list[i].replace_ranges(edits);
            }
            return Some((id, n));
        }
        None
    }

    /// Whether `after` is `before` with `edits` made in the open document that
    /// is the file.
    pub open spec fn edits_in(&self, after: State, before: State, edits: Seq<Edit>) -> bool {
        match (self.document_in(before), self.edited_document(after, before)) {
            (Some(old), Some(new)) => edited_by(new, old, edits) && self.put_in(after, before, new),
            _ => false,
        }
    }

    /// What stands in `after` where the document was in `before`.
    pub open spec fn edited_document(&self, after: State, before: State) -> Option<Buffer> {
        match self.place_in(before.pane.docs) {
            Some(i) => Some(after.pane.docs.list@[i]),
            None => match self.pane_in(before.panes@) {
                Some(p) => Some(
                    after.panes@[p].docs.list@[self.place_in(before.panes@[p].docs)->0],
                ),
                None => None,
            },
        }
    }
}

} // verus!
