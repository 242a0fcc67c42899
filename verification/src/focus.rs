//! Who has the keyboard, and what follows an edit of it.

use crate::keys::EditOp;
use crate::state::{self, EditorView, Effect, Focus, State, Target};
use crate::table::{has_id, keep_only};
use std::collections::HashMap;
use vstd::prelude::*;

verus! {

/// Largest text that is parsed for highlighting.
///
/// Set from measurement, not taste: past 2 MiB an edit no longer fits in a
/// frame, and highlighting is dropped rather than the responsiveness, because
/// an editor that stutters is worse than one without colours.
pub fn reparse_budget() -> (bytes: usize)
    ensures
        bytes == 2 * 1024 * 1024,
{
    2 * 1024 * 1024
}

/// Whether typing goes to a field (palette, find, go to line, a sidebar name,
/// the commit message) rather than to the document.
pub fn field_has_keys(state: &State) -> (r: bool)
    ensures
        r == state.field_open(),
{
    state.fields.sidebar_edit.is_some() || state.fields.rename.is_some()
        || state.fields.palette.is_some() || state.fields.find.is_some()
        || state.fields.goto_line.is_some() || (state.git.open && state.git.focus)
}

/// Whether the active tab is a review.
pub fn active_review(state: &State) -> (r: bool)
    requires
        state.wf(),
    ensures
        r == state.reviewing(),
{
    match &state.claude.bridge {
        Some(bridge) => bridge.reviews.contains(state.pane.docs.active().id),
        None => false,
    }
}

/// The text that receives text input and editing menu commands.
pub fn focused_buffer(state: &State) -> (target: Target)
    requires
        state.wf(),
    ensures
        target == state.target(),
{
    if state.fields.sidebar_edit.is_some() {
        return Target::SidebarName;
    }
    if state.fields.rename.is_some() {
        return Target::RenameName;
    }
    if state.git.open {
        return Target::CommitMessage;
    }
    if state.fields.goto_line.is_some() {
        return Target::Goto;
    }
    if state.fields.palette.is_some() {
        return Target::Palette;
    }
    match &state.fields.find {
        Some(bar) => {
            return if bar.replacing {
                Target::FindReplacement
            } else {
                Target::FindQuery
            };
        },
        None => {},
    }
    let terminal = state.terminal.open && state.terminal.focus && !field_has_keys(state);
    if active_review(state) || terminal {
        Target::Nowhere
    } else {
        Target::Document
    }
}

/// See [`state::focus_of`].
pub fn focus_for(target: Target) -> (focus: Focus)
    ensures
        focus == state::focus_of(target),
{
    match target {
        Target::Document => Focus::Document,
        Target::FindQuery => Focus::FindQuery,
        Target::Goto | Target::Nowhere => Focus::Goto,
        _ => Focus::Field,
    }
}

/// The ids of every open document: the focused pane's, then the others'.
pub open spec fn open_ids(state: State) -> Set<u64> {
    Set::new(|id: u64| state::is_open_in(state, id))
}

/// The ids of every open document.
pub fn ids_of(state: &State) -> (ids: Vec<u64>)
    ensures
        ids@.to_set() == open_ids(*state),
{
    let mut ids: Vec<u64> = Vec::new();
    let mut i: usize = 0;
    while i < state.pane.docs.list.len()
        invariant
            i <= state.pane.docs.list@.len(),
            forall|id: u64| #[trigger]
                ids@.contains(id) <==> exists|j: int|
                    0 <= j < i && (#[trigger] state.pane.docs.list@[j]).id == id,
        decreases state.pane.docs.list@.len() - i,
    {
        let ghost before = ids@;
        ids.push(state.pane.docs.list[i].id);
        proof {
            assert forall|id: u64| #[trigger] ids@.contains(id) <==> exists|j: int|
                0 <= j < i + 1 && (#[trigger] state.pane.docs.list@[j]).id == id by {
                if ids@.contains(id) {
                    let k = ids@.index_of(id);
                    if k < before.len() {
                        assert(before[k] == id);
                        assert(before.contains(id));
                    } else {
                        assert(state.pane.docs.list@[i as int].id == id);
                    }
                }
                if exists|j: int|
                    0 <= j < i + 1 && (#[trigger] state.pane.docs.list@[j]).id == id {
                    let j = choose|j: int|
                        0 <= j < i + 1 && (#[trigger] state.pane.docs.list@[j]).id == id;
                    if j < i {
                        assert(before.contains(id));
                        let k = before.index_of(id);
                        assert(ids@[k] == id);
                    } else {
                        assert(ids@[before.len() as int] == id);
                    }
                }
            }
        }
        i += 1;
    }
    let mut p: usize = 0;
    while p < state.panes.len()
        invariant
            p <= state.panes@.len(),
            forall|id: u64| #[trigger]
                ids@.contains(id) <==> {
                    ||| exists|j: int|
                        0 <= j < state.pane.docs.list@.len() && (
                        #[trigger] state.pane.docs.list@[j]).id == id
                    ||| exists|q: int, j: int|
                        0 <= q < p && 0 <= j < state.panes@[q].docs.list@.len()
                            && #[trigger] state.panes@[q].docs.list@[j].id == id
                },
        decreases state.panes@.len() - p,
    {
        let ghost start = ids@;
        let mut j: usize = 0;
        while j < state.panes[p as usize].docs.list.len()
            invariant
                p < state.panes@.len(),
                j <= state.panes@[p as int].docs.list@.len(),
                forall|id: u64| #[trigger]
                    ids@.contains(id) <==> start.contains(id) || exists|k: int|
                        0 <= k < j && #[trigger] state.panes@[p as int].docs.list@[k].id == id,
            decreases state.panes@[p as int].docs.list@.len() - j,
        {
            let ghost before = ids@;
            ids.push(state.panes[p].docs.list[j].id);
            proof {
                assert forall|id: u64| #[trigger] ids@.contains(id) <==> start.contains(id)
                    || exists|k: int|
                    0 <= k < j + 1 && #[trigger] state.panes@[p as int].docs.list@[k].id == id by {
                    if ids@.contains(id) {
                        let k = ids@.index_of(id);
                        if k < before.len() {
                            assert(before[k] == id);
                            assert(before.contains(id));
                        } else {
                            assert(state.panes@[p as int].docs.list@[j as int].id == id);
                        }
                    }
                    if before.contains(id) {
                        let k = before.index_of(id);
                        assert(ids@[k] == id);
                    }
                    if exists|k: int|
                        0 <= k < j + 1 && #[trigger] state.panes@[p as int].docs.list@[k].id == id {
                        let k = choose|k: int|
                            0 <= k < j + 1 && #[trigger] state.panes@[p as int].docs.list@[k].id
                                == id;
                        if k < j {
                            assert(before.contains(id));
                        } else {
                            assert(ids@[before.len() as int] == id);
                        }
                    }
                }
            }
            j += 1;
        }
        proof {
            assert forall|id: u64| #[trigger] ids@.contains(id) <==> ({
                ||| exists|j: int|
                    0 <= j < state.pane.docs.list@.len() && (
                    #[trigger] state.pane.docs.list@[j]).id == id
                ||| exists|q: int, j: int|
                    0 <= q < p + 1 && 0 <= j < state.panes@[q].docs.list@.len()
                        && #[trigger] state.panes@[q].docs.list@[j].id == id
            }) by {
                if exists|q: int, j: int|
                    0 <= q < p + 1 && 0 <= j < state.panes@[q].docs.list@.len()
                        && #[trigger] state.panes@[q].docs.list@[j].id == id {
                    let (q, j) = choose|q: int, j: int|
                        0 <= q < p + 1 && 0 <= j < state.panes@[q].docs.list@.len()
                            && #[trigger] state.panes@[q].docs.list@[j].id == id;
                    if q < p {
                        assert(start.contains(id));
                    } else {
                        assert(state.panes@[p as int].docs.list@[j].id == id);
                    }
                }
            }
        }
        p += 1;
    }
    proof {
        assert forall|id: u64| #[trigger] ids@.to_set().contains(id) == open_ids(*state).contains(
            id,
        ) by {
            assert(ids@.to_set().contains(id) == ids@.contains(id));
        }
        assert(ids@.to_set() =~= open_ids(*state));
    }
    ids
}

impl EditorView {
    /// Whether the document `id` is open in some pane.
    pub fn is_open(&self, id: u64) -> (r: bool)
        ensures
            r == state::is_open_in(self.state, id),
    {
        let ids = ids_of(&self.state);
        let r = has_id(&ids, id);
        assert(ids@.to_set().contains(id) == ids@.contains(id));
        r
    }

    /// Brings the active document's parse tree up to date.
    ///
    /// Called after anything that changes the text or which document is
    /// showing. Files past [`reparse_budget`] get no highlighting rather than
    /// a stalled editor. Closed tabs take their trees and responses with them.
    pub fn reparse(&mut self)
        requires
            old(self).state.wf(),
        ensures
            final(self).state.wf(),
            final(self).reparses(*old(self)),
    {
        let budget = reparse_budget();
        let id = self.state.pane.docs.active().id;
        let ids = ids_of(&self.state);
        keep_only(&mut self.state.http.responses, &ids);
        self.ask(Effect::Parse(id, budget));
    }

    /// This is `before` after [`EditorView::reparse`].
    pub open spec fn reparses(&self, before: EditorView) -> bool {
        &&& self.state.http.responses@ == before.state.http.responses@.restrict(
            open_ids(before.state),
        )
        &&& self.becomes(
            before,
            before.state.with_responses(self.state.http.responses),
            seq![Effect::Parse(before.state.pane.docs.front().id, (2 * 1024 * 1024) as usize)],
        )
    }

    /// Hands an edit to whatever text has the keyboard: an open overlay's
    /// field before the document, in the order the keys are offered. Returns
    /// what has to follow; see [`EditorView::after_focused_edit`].
    ///
    /// A review tab holds the assistant's text, which is answered, not edited, so its
    /// edits go nowhere.
    pub fn edit_focused(&mut self, op: EditOp) -> (focus: Focus)
        requires
            old(self).state.wf(),
        ensures
            focus == state::focus_of(old(self).state.target()),
            final(self).becomes(
                *old(self),
                old(self).state,
                seq![Effect::Edit(old(self).state.target(), op)],
            ),
    {
        let target = focused_buffer(&self.state);
        self.ask(Effect::Edit(target, op));
        focus_for(target)
    }
}

impl State {
    /// The state with other response tabs.
    pub open spec fn with_responses(
        self,
        responses: HashMap<u64, crate::state::ResponseView>,
    ) -> State {
        State { http: crate::state::Requests { responses, ..self.http }, ..self }
    }
}

/// A field that is open has the keyboard: an edit goes to it, never to the
/// document behind it.
pub proof fn a_field_keeps_edits_from_the_document(s: State)
    requires
        s.field_open(),
    ensures
        s.target() != Target::Document,
        state::focus_of(s.target()) != Focus::Document,
{
}

/// Edits reach the document only when nothing else has the keyboard.
pub proof fn the_document_is_edited_only_when_it_has_the_keys(s: State)
    requires
        s.target() == Target::Document,
    ensures
        !s.field_open(),
        !s.git.open,
        !s.reviewing(),
        !s.terminal_keys(),
{
}

} // verus!
