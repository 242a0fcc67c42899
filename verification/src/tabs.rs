//! Tabs: which is in front, what closing one asks, and how the strip keeps it
//! in sight.

use crate::buffer::Buffer;
use crate::documents::Documents;
use crate::panes::{self, pane_count, restore_panes, take_panes, PaneStore};
use crate::state::{Drag, EditorView, Effect, Fields, State, TabBar, TabHit, Task};
use vstd::prelude::*;

verus! {

/// Whether a document opens as rendered Markdown.
pub open spec fn renders(b: Buffer) -> bool {
    b.extension matches Some(e) && (e@ == "md"@ || e@ == "markdown"@ || e@ == "mdown"@)
}

/// How a document is shown when it comes to the front: Markdown rendered,
/// from its top, anything else as its source.
pub open spec fn preview_of(b: Buffer) -> Option<usize> {
    if renders(b) {
        Some(0)
    } else {
        None
    }
}

/// See [`preview_of`].
pub fn default_preview(b: &Buffer) -> (preview: Option<usize>)
    ensures
        preview == preview_of(*b),
{
    match &b.extension {
        Some(e) => {
            let e: &str = e.as_str();
            if crate::text::same(e, "md") || crate::text::same(e, "markdown")
                || crate::text::same(e, "mdown") {
                Some(0)
            } else {
                None
            }
        },
        None => None,
    }
}

/// Whether tab `index` was drawn.
pub open spec fn is_drawn(hits: Seq<TabHit>, index: usize) -> bool {
    exists|i: int| 0 <= i < hits.len() && (#[trigger] hits[i]).index == index
}

/// Whether there is room for the next tab after those drawn.
pub open spec fn next_fits(hits: Seq<TabHit>, index: usize, width: i32, ends_at: i32) -> bool {
    &&& hits.len() > 0
    &&& index == hits.last().index + 1
    &&& hits.last().x1 + width <= ends_at
}

/// The scroll that has the active tab of `pane` in sight: unchanged when it is
/// drawn or fits next to the last one drawn, otherwise starting with it.
pub open spec fn revealed_scroll(pane: PaneStore, ends_at: i32) -> usize {
    let active = pane.docs.active;
    if is_drawn(pane.tab_hits@, active) || next_fits(
        pane.tab_hits@,
        active,
        pane.docs.front().tab_width,
        ends_at,
    ) {
        pane.tab_scroll
    } else {
        active
    }
}

/// Whether tab `index` was drawn.
fn drawn(hits: &Vec<TabHit>, index: usize) -> (r: bool)
    ensures
        r == is_drawn(hits@, index),
{
    let mut i: usize = 0;
    while i < hits.len()
        invariant
            i <= hits@.len(),
            forall|j: int| 0 <= j < i ==> (#[trigger] hits@[j]).index != index,
        decreases hits@.len() - i,
    {
        if hits[i].index == index {
            return true;
        }
        i += 1;
    }
    false
}

/// Scrolls the tab strip so that the active tab is in sight.
pub fn reveal_active_tab(state: &mut State)
    requires
        old(state).pane.docs.wf(),
    ensures
        *final(state) == (State {
            pane: PaneStore {
                tab_scroll: revealed_scroll(old(state).pane, old(state).tab_bar.ends_at),
                ..old(state).pane
            },
            ..*old(state)
        }),
{
    let active = state.pane.docs.active;
    if drawn(&state.pane.tab_hits, active) {
        return;
    }
    let n = state.pane.tab_hits.len();
    if n > 0 {
        let last = state.pane.tab_hits[n - 1];
        let width = state.pane.docs.active().tab_width;
        if last.index < usize::MAX && active == last.index + 1 && last.x1 as i64 + width as i64
            <= state.tab_bar.ends_at as i64 {
            return;
        }
    }
    state.pane.tab_scroll = active;
}

impl State {
    /// The state with the document in front shown as it is shown on coming
    /// there, and its tab in sight.
    pub open spec fn presented(self) -> State {
        State {
            pane: PaneStore {
                preview: preview_of(self.pane.docs.front()),
                tab_scroll: revealed_scroll(self.pane, self.tab_bar.ends_at),
                ..self.pane
            },
            ..self
        }
    }

    /// The state with tab `index` of the focused pane in front.
    pub open spec fn switched(self, index: usize) -> State {
        State {
            pane: PaneStore { docs: Documents { active: index, ..self.pane.docs }, ..self.pane },
            ..self
        }
    }

    /// The state with other documents in the focused pane.
    pub open spec fn with_docs(self, docs: Documents) -> State {
        State { pane: PaneStore { docs, ..self.pane }, ..self }
    }
}

/// Shows the document in front as it is shown on coming there.
pub fn present(state: &mut State)
    requires
        old(state).pane.docs.wf(),
    ensures
        *final(state) == old(state).presented(),
{
    state.pane.preview = default_preview(state.pane.docs.active());
    reveal_active_tab(state);
}

/// Whether `after` is `before` with tab `index` closed, `blank` taking the
/// place of the last.
pub open spec fn closes(after: Documents, before: Documents, index: int, blank: Buffer) -> bool {
    if index >= before.list@.len() {
        after == before
    } else if before.list@.len() == 1 {
        after.list@ == seq![blank] && after.active == 0
    } else {
        after.list@ == before.list@.remove(index) && after.active == before.active_without(index)
    }
}

/// The servers are told that a closed document is gone.
pub open spec fn goodbye(docs: Documents, index: int) -> Seq<Effect> {
    if index < docs.list@.len() && docs.list@[index].path is Some {
        seq![Effect::DidClose(docs.list@[index].path->0)]
    } else {
        Seq::empty()
    }
}

/// How a question about unsaved changes was answered.
#[derive(Clone, Copy, PartialEq, Eq, Structural, Debug)]
pub enum Discard {
    /// Nothing to lose: it was clean, or it has just been saved.
    Saved,
    /// Don't Save.
    Dropped,
    /// Cancel, or a save that did not reach disk.
    Cancel,
}

/// The tab whose close button or body is at `x`.
pub open spec fn tab_under(hits: Seq<TabHit>, x: i32) -> Option<int>
    decreases hits.len(),
{
    if hits.len() == 0 {
        None
    } else {
        match tab_under(hits.drop_last(), x) {
            Some(i) => Some(i),
            None => if hits.last().x0 <= x < hits.last().x1 {
                Some(hits.len() - 1)
            } else {
                None
            },
        }
    }
}

/// See [`tab_under`].
pub(crate) fn find_tab(hits: &Vec<TabHit>, x: i32) -> (at: Option<usize>)
    ensures
        match (at, tab_under(hits@, x)) {
            (Some(i), Some(j)) => i == j && i < hits@.len(),
            (None, None) => true,
            _ => false,
        },
{
    let mut found: Option<usize> = None;
    let mut i: usize = 0;
    assert(hits@.take(0) =~= Seq::empty());
    while i < hits.len()
        invariant
            i <= hits@.len(),
            match (found, tab_under(hits@.take(i as int), x)) {
                (Some(a), Some(b)) => a == b && a < i,
                (None, None) => true,
                _ => false,
            },
        decreases hits@.len() - i,
    {
        assert(hits@.take(i + 1).drop_last() =~= hits@.take(i as int));
        if found.is_none() && hits[i].x0 <= x && x < hits[i].x1 {
            found = Some(i);
        }
        i += 1;
    }
    assert(hits@.take(hits@.len() as int) =~= hits@);
    found
}

impl State {
    /// The state after pane `index` got the keyboard, `rest` being the others:
    /// what was being found, gone to or dragged was in another pane.
    pub open spec fn focusing(self, index: int, rest: Vec<PaneStore>) -> State {
        let moved = panes::with_panes(self, panes::every_pane(self), index, rest);
        State {
            fields: Fields { find: None, goto_line: None, ..self.fields },
            drag: Drag { selecting: None, ..self.drag },
            ..moved
        }
    }
}

impl EditorView {
    /// This is `before` with pane `index` focused.
    pub open spec fn focuses(&self, before: EditorView, index: int, now: u64) -> bool {
        &&& self.state.panes@ == panes::every_pane(before.state).remove(index)
        &&& self.shows(
            before,
            before.state.focusing(index, self.state.panes),
            seq![
                Effect::SyncTitle,
                Effect::Run(Task::Reparse),
                Effect::InvalidateCursorRects,
            ],
            now,
        )
    }

    /// Gives pane `index` the keyboard.
    pub fn focus_pane(&mut self, index: usize, now: u64)
        requires
            old(self).state.wf(),
        ensures
            final(self).state.wf(),
            index == old(self).state.focused_pane || index > old(self).state.panes@.len()
                ==> *final(self) == *old(self),
            index != old(self).state.focused_pane && index <= old(self).state.panes@.len()
                ==> final(self).focuses(*old(self), index as int, now),
    {
        if index == self.state.focused_pane || index >= pane_count(&self.state) {
            return;
        }
        let ghost all_before = panes::every_pane(old(self).state);
        let all = take_panes(&mut self.state);
        assert(forall|p: int| 0 <= p < all@.len() ==> (#[trigger] all@[p]).docs.wf());
        restore_panes(&mut self.state, all, index);
        self.state.fields.find = None;
        self.state.fields.goto_line = None;
        self.state.drag.selecting = None;
        self.effects.push(Effect::SyncTitle);
        self.effects.push(Effect::Run(Task::Reparse));
        self.effects.push(Effect::InvalidateCursorRects);
        let ghost done = seq![
            Effect::SyncTitle,
            Effect::Run(Task::Reparse),
            Effect::InvalidateCursorRects,
        ];
        assert(self.effects@ =~= old(self).effects@ + done);
        self.show(now);
        assert(self.effects@ =~= old(self).effects@ + (done + old(self).pumping(now)));
        assert(self.state.panes@ =~= all_before.remove(index as int));
    }

    /// Opens a new, empty pane to the right of the focused one and focuses it.
    /// `fresh` is the id of its blank document.
    ///
    /// A document lives in one pane only, so the new pane starts at home.
    pub fn split_pane(&mut self, fresh: u64, now: u64)
        requires
            old(self).state.wf(),
        ensures
            final(self).state.wf(),
            old(self).state.panes@.len() >= 3 ==> {
                &&& final(self).state.says("four panes is the limit"@, now)
                &&& final(self).marks(
                    *old(self),
                    old(self).state.saying(final(self).state.status.message->0),
                    Seq::empty(),
                )
            },
            old(self).state.panes@.len() < 3 ==> {
                &&& panes::is_empty_pane(final(self).state.pane)
                &&& final(self).state.pane.docs.front().id == fresh
                &&& final(self).state.focused_pane == old(self).state.focused_pane + 1
                &&& final(self).state.panes@ == panes::every_pane(old(self).state)
                &&& final(self).shows(
                    *old(self),
                    State {
                        pane: final(self).state.pane,
                        panes: final(self).state.panes,
                        focused_pane: (old(self).state.focused_pane + 1) as usize,
                        fields: Fields {
                            find: None,
                            goto_line: None,
                            ..old(self).state.fields
                        },
                        ..old(self).state
                    },
                    seq![Effect::SyncTitle, Effect::Run(Task::Reparse)],
                    now,
                )
            },
    {
        if pane_count(&self.state) >= 4 {
            self.say("four panes is the limit".to_owned(), now);
            self.request_redraw();
            return;
        }
        let at = self.state.focused_pane + 1;
        let ghost before = panes::every_pane(old(self).state);
        let mut all = take_panes(&mut self.state);
        assert(forall|p: int| 0 <= p < all@.len() ==> (#[trigger] all@[p]).docs.wf());
        all.insert(at, crate::panes::empty_pane(fresh));
        assert(all@.remove(at as int) =~= before);
        restore_panes(&mut self.state, all, at);
        self.state.fields.find = None;
        self.state.fields.goto_line = None;
        self.effects.push(Effect::SyncTitle);
        self.effects.push(Effect::Run(Task::Reparse));
        let ghost done = seq![Effect::SyncTitle, Effect::Run(Task::Reparse)];
        assert(self.effects@ =~= old(self).effects@ + done);
        self.show(now);
        assert(self.effects@ =~= old(self).effects@ + (done + old(self).pumping(now)));
    }

    /// This is `before` with its focused pane gone.
    pub open spec fn drops_pane(&self, before: EditorView, now: u64) -> bool {
        let all = panes::every_pane(before.state).remove(before.state.focused_pane as int);
        let focus = if before.state.focused_pane > 0 {
            before.state.focused_pane - 1
        } else {
            0
        };
        &&& self.state.panes@ == all.remove(focus)
        &&& self.shows(
            before,
            State {
                fields: Fields { find: None, goto_line: None, ..before.state.fields },
                ..panes::with_panes(before.state, all, focus, self.state.panes)
            },
            seq![Effect::SyncTitle, Effect::Run(Task::Reparse)],
            now,
        )
    }

    /// Takes the focused pane away, giving the keyboard to the one on its left.
    pub fn drop_focused_pane(&mut self, now: u64)
        requires
            old(self).state.wf(),
        ensures
            final(self).state.wf(),
            old(self).state.panes@.len() == 0 ==> *final(self) == *old(self),
            old(self).state.panes@.len() > 0 ==> final(self).drops_pane(*old(self), now),
    {
        if self.state.panes.len() == 0 {
            return;
        }
        let focused = self.state.focused_pane;
        let ghost before = panes::every_pane(old(self).state);
        let mut all = take_panes(&mut self.state);
        assert(forall|p: int| 0 <= p < all@.len() ==> (#[trigger] all@[p]).docs.wf());
        let gone = all.remove(focused);
        let ghost left = all@;
        assert(forall|p: int| 0 <= p < all@.len() ==> (#[trigger] all@[p]).docs.wf());
        let focus: usize = if focused > 0 {
            focused - 1
        } else {
            0
        };
        restore_panes(&mut self.state, all, focus);
        self.state.fields.find = None;
        self.state.fields.goto_line = None;
        self.effects.push(Effect::SyncTitle);
        self.effects.push(Effect::Run(Task::Reparse));
        let ghost done = seq![Effect::SyncTitle, Effect::Run(Task::Reparse)];
        assert(self.effects@ =~= old(self).effects@ + done);
        self.show(now);
        assert(self.effects@ =~= old(self).effects@ + (done + old(self).pumping(now)));
        assert(self.state.panes@ =~= left.remove(focus as int));
    }

    /// This is `before` asking about tab `index` of the focused pane: it is in
    /// front, so that the question names it.
    pub open spec fn asks_about(&self, before: EditorView, index: int) -> bool {
        self.becomes(
            before,
            before.state.switched(index as usize),
            seq![Effect::SyncTitle, Effect::AskAboutChanges],
        )
    }

    /// Closes pane `index`, asking about its unsaved documents first, one by
    /// one, like closing tabs. Returns the tab that is being asked about, if
    /// one is.
    pub fn close_pane(&mut self, index: usize, now: u64) -> (asking: Option<usize>)
        requires
            old(self).state.wf(),
        ensures
            final(self).state.wf(),
            old(self).state.panes@.len() == 0 ==> asking is None && *final(self) == *old(self),
            old(self).state.panes@.len() > 0 && (index == old(self).state.focused_pane || index
                > old(self).state.panes@.len()) ==> final(self).continues_closing(
                *old(self),
                asking,
                now,
            ),
            old(self).state.panes@.len() > 0 && index != old(self).state.focused_pane && index
                <= old(self).state.panes@.len() ==> exists|focused: EditorView|
                {
                    &&& #[trigger] focused.focuses(*old(self), index as int, now)
                    &&& final(self).continues_closing(focused, asking, now)
                },
    {
        if self.state.panes.len() == 0 {
            return None;
        }
        self.focus_pane(index, now);
        let ghost focused = *self;
        let asking = self.continue_closing_pane(now);
        assert(index != old(self).state.focused_pane && index <= old(self).state.panes@.len()
            ==> focused.focuses(*old(self), index as int, now));
        asking
    }

    /// This is `before` after looking for the next unsaved document of the
    /// pane being closed: it is asked about, or the pane goes.
    pub open spec fn continues_closing(
        &self,
        before: EditorView,
        asking: Option<usize>,
        now: u64,
    ) -> bool {
        match before.state.pane.docs.first_dirty() {
            Some(at) => asking == Some(at as usize) && self.asks_about(before, at),
            None => {
                &&& asking is None
                &&& if before.state.panes@.len() == 0 {
                    *self == before
                } else {
                    self.drops_pane(before, now)
                }
            },
        }
    }

    /// Asks about the next unsaved document of the focused pane, or closes it.
    pub fn continue_closing_pane(&mut self, now: u64) -> (asking: Option<usize>)
        requires
            old(self).state.wf(),
        ensures
            final(self).state.wf(),
            final(self).continues_closing(*old(self), asking, now),
    {
        match self.state.pane.docs.dirty_index() {
            Some(at) => {
                let shown = self.state.pane.docs.switch(at);
                self.effects.push(Effect::SyncTitle);
                self.effects.push(Effect::AskAboutChanges);
                assert(self.effects@ =~= old(self).effects@ + seq![
                    Effect::SyncTitle,
                    Effect::AskAboutChanges,
                ]);
                Some(at)
            },
            None => {
                self.drop_focused_pane(now);
                None
            },
        }
    }

    /// The question about tab `index` of the pane being closed was answered:
    /// Cancel keeps the pane, anything else closes the tab.
    pub fn pane_answered(&mut self, index: usize, answer: Discard, blank: Buffer)
        requires
            old(self).state.wf(),
            blank.wf(),
        ensures
            final(self).state.wf(),
            answer is Cancel ==> *final(self) == *old(self),
            !(answer is Cancel) ==> {
                &&& closes(
                    final(self).state.pane.docs,
                    old(self).state.pane.docs,
                    index as int,
                    blank,
                )
                &&& final(self).state == old(self).state.with_docs(final(self).state.pane.docs)
                &&& final(self).ivars == old(self).ivars
                &&& final(self).effects == old(self).effects
            },
    {
        match answer {
            Discard::Cancel => {},
            _ => {
                let gone = self.state.pane.docs.close(index, blank);
            },
        }
    }

    /// A click at `x` in the tab bar.
    ///
    /// The empty part of the bar does nothing. Only the active tab draws its
    /// close cross, so only there is that corner a close button. A tab that has
    /// gone since it was drawn is not switched to.
    pub fn tab_click(&mut self, x: i32, now: u64)
        requires
            old(self).state.wf(),
        ensures
            final(self).state.wf(),
            match tab_under(old(self).state.pane.tab_hits@, x) {
                None => *final(self) == *old(self),
                Some(i) => {
                    let hit = old(self).state.pane.tab_hits@[i];
                    if hit.close_x0 <= x < hit.close_x1 && hit.index
                        == old(self).state.pane.docs.active {
                        final(self).shows(
                            *old(self),
                            old(self).state,
                            seq![Effect::Run(Task::CloseTab(hit.index))],
                            now,
                        )
                    } else {
                        let switched = if hit.index < old(self).state.pane.docs.list@.len() {
                            old(self).state.switched(hit.index)
                        } else {
                            old(self).state
                        };
                        final(self).shows(
                            *old(self),
                            State {
                                pane: PaneStore {
                                    preview: preview_of(switched.pane.docs.front()),
                                    ..switched.pane
                                },
                                ..switched
                            },
                            seq![Effect::SyncTitle, Effect::Run(Task::Reparse)],
                            now,
                        )
                    }
                },
            },
    {
        let hit = match find_tab(&self.state.pane.tab_hits, x) {
            None => {
                return;
            },
            Some(i) => self.state.pane.tab_hits[i],
        };
        let on_cross = hit.close_x0 <= x && x < hit.close_x1;
        if on_cross && hit.index == self.state.pane.docs.active {
            self.effects.push(Effect::Run(Task::CloseTab(hit.index)));
            let ghost done = seq![Effect::Run(Task::CloseTab(hit.index))];
            assert(self.effects@ =~= old(self).effects@ + done);
            self.show(now);
            assert(self.effects@ =~= old(self).effects@ + (done + old(self).pumping(now)));
        } else {
            let shown = self.state.pane.docs.switch(hit.index);
            self.state.pane.preview = default_preview(self.state.pane.docs.active());
            self.effects.push(Effect::SyncTitle);
            self.effects.push(Effect::Run(Task::Reparse));
            let ghost done = seq![Effect::SyncTitle, Effect::Run(Task::Reparse)];
            assert(self.effects@ =~= old(self).effects@ + done);
            self.show(now);
            assert(self.effects@ =~= old(self).effects@ + (done + old(self).pumping(now)));
        }
    }

    /// Moves the tab the context menu was opened on one place left or right.
    pub fn move_context_tab(&mut self, right: bool, now: u64)
        requires
            old(self).state.wf(),
        ensures
            final(self).state.wf(),
            match old(self).state.tab_bar.context {
                None => *final(self) == *old(self),
                Some(from) => {
                    let to = if right {
                        from + 1
                    } else {
                        from - 1
                    };
                    let docs = old(self).state.pane.docs;
                    if from < docs.list@.len() && 0 <= to < docs.list@.len() {
                        let after = final(self).state.pane.docs;
                        &&& after.list@ == docs.list@.remove(from as int).insert(
                            to,
                            docs.list@[from as int],
                        )
                        &&& after.front() == docs.front()
                        &&& final(self).shows(
                            *old(self),
                            State {
                                tab_bar: TabBar {
                                    context: Some(to as usize),
                                    ..old(self).state.tab_bar
                                },
                                ..old(self).state.with_docs(after)
                            },
                            Seq::empty(),
                            now,
                        )
                    } else {
                        *final(self) == *old(self)
                    }
                },
            },
    {
        let from = match self.state.tab_bar.context {
            None => {
                return;
            },
            Some(from) => from,
        };
        if from >= self.state.pane.docs.len() || !right && from == 0 {
            return;
        }
        let to: usize = if right {
            from + 1
        } else {
            from - 1
        };
        if self.state.pane.docs.move_tab(from, to) {
            self.state.tab_bar.context = Some(to);
            self.show(now);
        }
    }
}

/// There are never more than four panes, the focused one counted.
pub proof fn four_panes_at_most(state: State)
    requires
        state.wf(),
    ensures
        panes::every_pane(state).len() <= 4,
        panes::every_pane(state).len() == state.panes@.len() + 1,
{
}

} // verus!
