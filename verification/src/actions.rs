//! What the menu items do.

use crate::buffer::Buffer;
use crate::keys::EditOp;
use crate::panes::pane_count;
use crate::session::Leaving;
use crate::sidebar::SidebarEditKind;
use crate::state::{EditorView, Effect, Focus, Side, State, Status, Target, Task};
use crate::tabs::{self, default_preview, present};
use crate::text::joined;
use vstd::prelude::*;
use vstd::string::*;

verus! {

impl EditorView {
    /// Toggles the rendered Markdown view, where there is something to render.
    pub fn action_toggle_preview(&mut self, now: u64)
        requires
            old(self).state.wf(),
        ensures
            final(self).state.wf(),
            ({
                let s = old(self).state;
                if tabs::preview_of(s.pane.docs.front()) is None {
                    &&& final(self).state.says("Preview is for Markdown files"@, now)
                    &&& final(self).shows(
                        *old(self),
                        s.saying(final(self).state.status.message->0),
                        Seq::empty(),
                        now,
                    )
                } else {
                    final(self).shows(
                        *old(self),
                        State {
                            pane: crate::panes::PaneStore {
                                preview: if s.pane.preview is Some {
                                    None
                                } else {
                                    Some(0)
                                },
                                ..s.pane
                            },
                            ..s
                        },
                        Seq::empty(),
                        now,
                    )
                }
            }),
    {
        if default_preview(self.state.pane.docs.active()).is_none() {
            self.say("Preview is for Markdown files".to_owned(), now);
        } else if self.state.pane.preview.is_some() {
            self.state.pane.preview = None;
        } else {
            self.state.pane.preview = Some(0);
        }
        self.show(now);
        assert(self.effects@ =~= old(self).effects@ + (Seq::<Effect>::empty() + old(self).pumping(
            now,
        )));
    }

    /// An edit of the active document from the menu: duplicate lines, or move
    /// them up or down.
    pub fn edit_document(&mut self, op: EditOp)
        requires
            old(self).state.wf(),
        ensures
            final(self).state.wf(),
            final(self).becomes(
                *old(self),
                old(self).state,
                seq![
                    Effect::Edit(Target::Document, op),
                    Effect::Run(Task::AfterFocusedEdit(Focus::Document)),
                ],
            ),
    {
        self.effects.push(Effect::Edit(Target::Document, op));
        self.effects.push(Effect::Run(Task::AfterFocusedEdit(Focus::Document)));
        assert(self.effects@ =~= old(self).effects@ + seq![
            Effect::Edit(Target::Document, op),
            Effect::Run(Task::AfterFocusedEdit(Focus::Document)),
        ]);
    }
}

/// The token that comments a line out. Plain text gets `//`; a language with
/// no line comment gets nothing, not a wrong token. `known` is what the
/// language says, when there is one.
pub open spec fn comment_token(known: Option<Option<String>>) -> Option<Seq<char>> {
    match known {
        None => Some("//"@),
        Some(None) => None,
        Some(Some(token)) => Some(token@),
    }
}

/// What commenting with a token asks for.
pub open spec fn comment_work(with: String) -> Seq<Effect> {
    seq![
        Effect::ToggleComment(with),
        Effect::Run(Task::AfterFocusedEdit(Focus::Document)),
    ]
}

impl EditorView {
    /// Comments the selected lines out, or in again.
    pub fn action_toggle_comment(&mut self, known: &Option<Option<String>>)
        requires
            old(self).state.wf(),
        ensures
            final(self).state.wf(),
            match comment_token(*known) {
                None => *final(self) == *old(self),
                Some(token) => exists|with: String|
                    {
                        &&& with@ == token
                        &&& #[trigger] final(self).becomes(
                            *old(self),
                            old(self).state,
                            comment_work(with),
                        )
                    },
            },
    {
        let token = match known {
            None => "//".to_owned(),
            Some(None) => {
                return;
            },
            Some(Some(token)) => token.clone(),
        };
        let ghost with = token;
        self.effects.push(Effect::ToggleComment(token));
        self.effects.push(Effect::Run(Task::AfterFocusedEdit(Focus::Document)));
        assert(self.effects@ =~= old(self).effects@ + comment_work(with));
        assert(self.becomes(*old(self), old(self).state, comment_work(with)));
    }

    /// This is `before` with the find bar opened.
    pub open spec fn opens_find(&self, before: EditorView, now: u64) -> bool {
        &&& self.state.fields.find matches Some(bar) && bar.is_new() && bar.seeded_from(
            before.state.pane.docs.front(),
        )
        &&& self.shows(
            before,
            before.state.with_find(self.state.fields.find),
            Seq::empty(),
            now,
        )
    }

    /// Replaces every match. Only meaningful with the bar open, since that is
    /// where the search and replacement text live.
    pub fn action_replace_all(&mut self, now: u64)
        requires
            old(self).state.wf(),
        ensures
            final(self).state.wf(),
            match old(self).state.fields.find {
                None => final(self).opens_find(*old(self), now),
                Some(bar) => final(self).becomes(
                    *old(self),
                    old(self).state,
                    seq![
                        Effect::Run(
                            if bar.project {
                                Task::ReplaceInProject
                            } else {
                                Task::ReplaceAll
                            },
                        ),
                    ],
                ),
            },
    {
        let project = match &self.state.fields.find {
            Some(bar) => bar.project,
            None => {
                self.open_find(now);
                return;
            },
        };
        self.ask(
            Effect::Run(
                if project {
                    Task::ReplaceInProject
                } else {
                    Task::ReplaceAll
                },
            ),
        );
    }

    /// Opens the find bar on the whole project.
    pub fn action_find_project(&mut self, now: u64)
        requires
            old(self).state.wf(),
        ensures
            final(self).state.wf(),
            exists|opened: EditorView|
                {
                    &&& #[trigger] opened.opens_find(*old(self), now)
                    &&& final(self).shows(
                        opened,
                        opened.state.with_bar(
                            crate::find::FindBar { project: true, ..opened.state.fields.find->0 },
                        ),
                        Seq::empty(),
                        now,
                    )
                },
    {
        self.open_find(now);
        let ghost opened = *self;
        assert(opened.opens_find(*old(self), now));
        if let Some(bar) = &mut self.state.fields.find {
            bar.project = true;
        }
        assert(self.state == opened.state.with_bar(
            crate::find::FindBar { project: true, ..opened.state.fields.find->0 },
        ));
        self.show(now);
        assert(self.effects@ =~= opened.effects@ + (Seq::<Effect>::empty() + opened.pumping(now)));
    }

    /// The next match, or the one before.
    pub fn action_find_step(&mut self, forward: bool, now: u64)
        requires
            old(self).state.wf(),
        ensures
            final(self).state.wf(),
            final(self).shows(
                *old(self),
                old(self).state,
                seq![Effect::Run(Task::FindStep(forward))],
                now,
            ),
    {
        self.ask(Effect::Run(Task::FindStep(forward)));
        self.show(now);
        assert(self.effects@ =~= old(self).effects@ + (seq![Effect::Run(Task::FindStep(forward))]
            + old(self).pumping(now)));
    }

    /// The next tab, or the one before, and round again at the ends.
    pub fn action_cycle_tab(&mut self, forward: bool, now: u64)
        requires
            old(self).state.wf(),
        ensures
            final(self).state.wf(),
            ({
                let docs = old(self).state.pane.docs;
                final(self).shows(
                    *old(self),
                    old(self).state.switched(
                        cycled(docs.active as int, docs.list@.len() as int, forward) as usize,
                    ).presented(),
                    seq![Effect::SyncTitle, Effect::Run(Task::Reparse)],
                    now,
                )
            }),
    {
        self.state.pane.docs.cycle(forward);
        present(&mut self.state);
        self.effects.push(Effect::SyncTitle);
        self.effects.push(Effect::Run(Task::Reparse));
        let ghost done = seq![Effect::SyncTitle, Effect::Run(Task::Reparse)];
        assert(self.effects@ =~= old(self).effects@ + done);
        self.show(now);
        assert(self.effects@ =~= old(self).effects@ + (done + old(self).pumping(now)));
    }
}

/// The place after `at` of `count`, or before it, and round again at the ends.
pub open spec fn cycled(at: int, count: int, forward: bool) -> int {
    if forward {
        (at + 1) % count
    } else {
        (at + count - 1) % count
    }
}

/// What Cmd-W closes.
#[derive(Clone, Copy, PartialEq, Eq, Structural, Debug)]
pub enum Closing {
    /// A terminal session, as in any terminal.
    Session,
    /// A tab, and whether it asks about unsaved changes first.
    Tab(bool),
    /// The last tab is the window; see [`Leaving`].
    Window(Leaving),
}

impl EditorView {
    /// Cmd-W closes the tab while more than one is open, and only falls
    /// through to closing the window on the last one.
    pub fn action_close_tab(&mut self, blank: Buffer, now: u64) -> (closing: Closing)
        requires
            old(self).state.wf(),
            blank.wf(),
        ensures
            final(self).state.wf(),
            ({
                let s = old(self).state;
                if s.terminal_keys() {
                    let panel = final(self).state.terminal;
                    &&& closing is Session
                    &&& if s.terminal.active < s.terminal.tabs@.len() {
                        panel.keeps(
                            s.terminal,
                            s.terminal.tabs@.remove(s.terminal.active as int),
                            s.terminal.active_without(s.terminal.active as int),
                        )
                    } else {
                        panel == s.terminal
                    }
                    &&& final(self).relays(
                        *old(self),
                        s.with_terminal(panel),
                        Seq::empty(),
                        now,
                    )
                } else if s.pane.docs.list@.len() > 1 {
                    &&& closing matches Closing::Tab(asking)
                    &&& final(self).closes_tab(
                        *old(self),
                        s.pane.docs.active as int,
                        blank,
                        asking,
                        now,
                    )
                } else {
                    &&& closing matches Closing::Window(leaving)
                    &&& exists|asked: EditorView|
                        {
                            &&& #[trigger] asked.leaves_window(*old(self), leaving, now)
                            &&& final(self).becomes(
                                asked,
                                asked.state,
                                if leaving is Go {
                                    seq![Effect::CloseWindow]
                                } else {
                                    Seq::empty()
                                },
                            )
                        }
                }
            }),
    {
        if self.terminal_has_keys() {
            let active = self.state.terminal.active;
            self.close_session(active, now);
            return Closing::Session;
        }
        if self.state.pane.docs.len() > 1 {
            let active = self.state.pane.docs.active_index();
            let asking = self.close_tab(active, blank, now);
            return Closing::Tab(asking);
        }
        let leaving = self.confirm_discard_all(now);
        let ghost asked = *self;
        assert(asked.leaves_window(*old(self), leaving, now));
        if leaving == Leaving::Go {
            self.ask(Effect::CloseWindow);
        } else {
            assert(self.effects@ =~= asked.effects@ + Seq::<Effect>::empty());
        }
        Closing::Window(leaving)
    }
}

/// The tabs to close, from the back to the front, so that each close does not
/// shift the places of the ones still to go.
pub open spec fn closing_order(count: int, keep: Option<usize>) -> Seq<int>
    decreases count,
{
    if count <= 0 {
        Seq::empty()
    } else if keep == Some((count - 1) as usize) {
        closing_order(count - 1, keep)
    } else {
        seq![count - 1] + closing_order(count - 1, keep)
    }
}

/// See [`closing_order`].
fn tabs_to_close(count: usize, keep: Option<usize>) -> (order: Vec<usize>)
    ensures
        order@.map_values(|i: usize| i as int) == closing_order(count as int, keep),
{
    let mut order: Vec<usize> = Vec::new();
    let mut left = count;
    assert(order@.map_values(|i: usize| i as int) =~= Seq::<int>::empty());
    assert(Seq::<int>::empty() + closing_order(count as int, keep) =~= closing_order(
        count as int,
        keep,
    ));
    while left > 0
        invariant
            left <= count,
            order@.map_values(|i: usize| i as int) + closing_order(left as int, keep)
                == closing_order(count as int, keep),
        decreases left,
    {
        let at = left - 1;
        let kept = match keep {
            Some(keep) => keep == at,
            None => false,
        };
        let ghost before = order@.map_values(|i: usize| i as int);
        if !kept {
            order.push(at);
            assert(order@.map_values(|i: usize| i as int) =~= before + seq![at as int]);
        }
        assert(order@.map_values(|i: usize| i as int) + closing_order(at as int, keep) =~= before
            + closing_order(left as int, keep));
        left = at;
    }
    assert(order@.map_values(|i: usize| i as int) + Seq::<int>::empty() =~= order@.map_values(
        |i: usize| i as int,
    ));
    order
}

/// Closing from the back never shifts a tab that is still to go: each place to
/// close is before the ones already closed.
pub proof fn closing_goes_back_to_front(count: int, keep: Option<usize>, i: int, j: int)
    requires
        0 <= count,
        0 <= i < j < closing_order(count, keep).len(),
    ensures
        closing_order(count, keep)[j] < closing_order(count, keep)[i] < count,
    decreases count,
{
    let rest = closing_order(count - 1, keep);
    if keep == Some((count - 1) as usize) {
        closing_goes_back_to_front(count - 1, keep, i, j);
    } else if i > 0 {
        closing_goes_back_to_front(count - 1, keep, i - 1, j - 1);
    } else {
        closing_is_below(count - 1, keep, j - 1);
    }
}

/// Every place to close is a place.
pub proof fn closing_is_below(count: int, keep: Option<usize>, i: int)
    requires
        0 <= i < closing_order(count, keep).len(),
    ensures
        0 <= closing_order(count, keep)[i] < count,
        keep != Some(closing_order(count, keep)[i] as usize),
    decreases count,
{
    if count > 0 {
        if keep == Some((count - 1) as usize) {
            closing_is_below(count - 1, keep, i);
        } else if i > 0 {
            closing_is_below(count - 1, keep, i - 1);
        }
    }
}

impl EditorView {
    /// The tabs that closing all but the clicked one closes, in order.
    pub fn action_close_other_tabs(&self) -> (order: Option<Vec<usize>>)
        requires
            self.state.wf(),
        ensures
            match self.state.tab_bar.context {
                None => order is None,
                Some(keep) => {
                    &&& order matches Some(order)
                    &&& order@.map_values(|i: usize| i as int) == closing_order(
                        self.state.pane.docs.list@.len() as int,
                        Some(keep),
                    )
                },
            },
    {
        match self.state.tab_bar.context {
            None => None,
            Some(keep) => Some(tabs_to_close(self.state.pane.docs.len(), Some(keep))),
        }
    }

    /// The tabs that closing all closes, in order.
    pub fn action_close_all_tabs(&self) -> (order: Vec<usize>)
        requires
            self.state.wf(),
        ensures
            order@.map_values(|i: usize| i as int) == closing_order(
                self.state.pane.docs.list@.len() as int,
                None,
            ),
    {
        tabs_to_close(self.state.pane.docs.len(), None)
    }

    /// Several tabs have been closed.
    pub fn tabs_closed(&mut self, now: u64)
        requires
            old(self).state.wf(),
        ensures
            final(self).state.wf(),
            final(self).shows(
                *old(self),
                old(self).state,
                seq![Effect::SyncTitle, Effect::Run(Task::Reparse)],
                now,
            ),
    {
        self.effects.push(Effect::SyncTitle);
        self.effects.push(Effect::Run(Task::Reparse));
        let ghost done = seq![Effect::SyncTitle, Effect::Run(Task::Reparse)];
        assert(self.effects@ =~= old(self).effects@ + done);
        self.show(now);
        assert(self.effects@ =~= old(self).effects@ + (done + old(self).pumping(now)));
    }
}

impl State {
    /// Where the file of the clicked tab is.
    pub open spec fn context_path(&self) -> Option<String> {
        match self.tab_bar.context {
            Some(i) => if i < self.pane.docs.list@.len() {
                self.pane.docs.list@[i as int].path
            } else {
                None
            },
            None => None,
        }
    }

    /// Where the selected item of the tree is.
    pub open spec fn tree_path(&self) -> Option<String> {
        match self.side.tree.selected {
            Some(i) => if i < self.side.tree.rows@.len() {
                Some(self.side.tree.rows@[i as int].path)
            } else {
                None
            },
            None => None,
        }
    }

    /// What "Reveal in Finder" is about: the selected item, or the active
    /// document.
    pub open spec fn revealed_path(&self) -> Option<String> {
        match self.tree_path() {
            Some(path) => Some(path),
            None => self.pane.docs.front().path,
        }
    }
}

/// What showing a file asks for, if there is one.
pub open spec fn reveal_work(path: Option<String>) -> Seq<Effect> {
    match path {
        Some(path) => seq![Effect::RevealInFinder(path)],
        None => Seq::empty(),
    }
}

impl EditorView {
    /// The file of the clicked tab.
    fn clicked_file(&self) -> (path: Option<String>)
        ensures
            path == self.state.context_path(),
    {
        match self.state.tab_bar.context {
            Some(i) => if i < self.state.pane.docs.list.len() {
                self.state.pane.docs.list[i].path.clone()
            } else {
                None
            },
            None => None,
        }
    }

    /// The selected item of the tree.
    fn selected_item(&self) -> (path: Option<String>)
        ensures
            path == self.state.tree_path(),
    {
        match self.state.side.tree.selected {
            Some(i) => if i < self.state.side.tree.rows.len() {
                Some(self.state.side.tree.rows[i].path.clone())
            } else {
                None
            },
            None => None,
        }
    }

    /// Asks for a file to be shown, if there is one.
    fn reveal_file(&mut self, path: Option<String>)
        ensures
            final(self).becomes(*old(self), old(self).state, reveal_work(path)),
    {
        match path {
            Some(path) => {
                self.ask(Effect::RevealInFinder(path));
            },
            None => {
                assert(self.effects@ =~= old(self).effects@ + Seq::<Effect>::empty());
            },
        }
    }

    /// Copies where the clicked tab's file is.
    pub fn action_copy_context_path(&mut self, now: u64)
        requires
            old(self).state.wf(),
        ensures
            final(self).state.wf(),
            match old(self).state.context_path() {
                None => *final(self) == *old(self),
                Some(path) => {
                    &&& final(self).state.says("copied "@ + path@, now)
                    &&& final(self).shows(
                        *old(self),
                        old(self).state.saying(final(self).state.status.message->0),
                        seq![Effect::CopyText(path)],
                        now,
                    )
                },
            },
    {
        let path = match self.clicked_file() {
            Some(path) => path,
            None => {
                return;
            },
        };
        let ghost copied = path;
        self.say(joined("copied ", path.as_str()), now);
        self.ask(Effect::CopyText(path));
        self.show(now);
        assert(self.effects@ =~= old(self).effects@ + (seq![Effect::CopyText(copied)] + old(
            self,
        ).pumping(now)));
    }

    /// Shows the clicked tab's file where the system shows files.
    pub fn action_reveal_context_tab(&mut self)
        requires
            old(self).state.wf(),
        ensures
            final(self).state.wf(),
            final(self).becomes(
                *old(self),
                old(self).state,
                reveal_work(old(self).state.context_path()),
            ),
    {
        let path = self.clicked_file();
        self.reveal_file(path);
    }

    /// Shows the selected item, or the active document's file.
    pub fn action_reveal(&mut self)
        requires
            old(self).state.wf(),
        ensures
            final(self).state.wf(),
            final(self).becomes(
                *old(self),
                old(self).state,
                reveal_work(old(self).state.revealed_path()),
            ),
    {
        let path = match self.selected_item() {
            Some(path) => Some(path),
            None => self.state.pane.docs.active().path.clone(),
        };
        self.reveal_file(path);
    }

    /// Shows the project's folder.
    pub fn action_reveal_project(&mut self)
        requires
            old(self).state.wf(),
        ensures
            final(self).state.wf(),
            final(self).becomes(
                *old(self),
                old(self).state,
                reveal_work(old(self).state.side.tree.root),
            ),
    {
        let root = self.state.side.tree.root.clone();
        self.reveal_file(root);
    }
}

/// What is said about a problem report. A scripted run opens no browser; it
/// says what it would open.
pub open spec fn report_note(testing: bool, url: Seq<char>, opened: Result<(), String>) -> Seq<char> {
    if testing {
        "would open "@ + url
    } else {
        match opened {
            Ok(_) => "a new issue is open in your browser; nothing is sent until you submit it"@,
            Err(error) => "could not open the browser: "@ + error@,
        }
    }
}

impl EditorView {
    /// A new issue is open in the browser, filled in, or could not be opened.
    /// Nothing is sent from here.
    pub fn action_report_problem(&mut self, url: &str, opened: Result<(), String>, now: u64)
        requires
            old(self).state.wf(),
        ensures
            final(self).state.wf(),
            final(self).state.says(report_note(old(self).ivars.testing, url@, opened), now),
            final(self).shows(
                *old(self),
                old(self).state.saying(final(self).state.status.message->0),
                Seq::empty(),
                now,
            ),
    {
        let note = if self.ivars.testing {
            joined("would open ", url)
        } else {
            match opened {
                Ok(_) =>
                    "a new issue is open in your browser; nothing is sent until you submit it".to_owned(),
                Err(error) => joined("could not open the browser: ", error.as_str()),
            }
        };
        self.say(note, now);
        self.show(now);
        assert(self.effects@ =~= old(self).effects@ + (Seq::<Effect>::empty() + old(self).pumping(
            now,
        )));
    }

    /// Looks for a newer release, and says so.
    pub fn action_check_for_updates(&mut self, now: u64)
        requires
            old(self).state.wf(),
        ensures
            final(self).state.wf(),
            final(self).state.says("checking for updates\u{2026}"@, now),
            ({
                let s = old(self).state;
                final(self).shows(
                    *old(self),
                    State {
                        status: Status {
                            update: Some(true),
                            message: final(self).state.status.message,
                            ..s.status
                        },
                        ..s
                    },
                    if s.status.update is Some {
                        seq![Effect::ResumeDisplayLink]
                    } else {
                        seq![Effect::CheckForUpdate, Effect::ResumeDisplayLink]
                    },
                    now,
                )
            }),
    {
        self.start_update_check(true);
        self.say("checking for updates\u{2026}".to_owned(), now);
        self.show(now);
        assert(self.effects@ =~= old(self).effects@ + ((if old(self).state.status.update is Some {
            seq![Effect::ResumeDisplayLink]
        } else {
            seq![Effect::CheckForUpdate, Effect::ResumeDisplayLink]
        }) + old(self).pumping(now)));
    }

    /// Renames the selected item of the tree, in the tree.
    pub fn action_rename_project_item(&mut self, visible: Option<usize>, now: u64)
        requires
            old(self).state.wf(),
            forall|i: int|
                0 <= i < old(self).state.side.tree.rows@.len() ==> (
                #[trigger] old(self).state.side.tree.rows@[i]).depth < usize::MAX,
        ensures
            final(self).state.wf(),
            match old(self).state.tree_path() {
                None => *final(self) == *old(self),
                Some(path) => final(self).starts_edit(
                    *old(self),
                    SidebarEditKind::Rename(path),
                    visible,
                    now,
                ),
            },
    {
        match self.selected_item() {
            Some(path) => self.start_sidebar_edit(SidebarEditKind::Rename(path), visible, now),
            None => {},
        }
    }

    /// The next pane gets the keyboard, or the one before.
    pub fn action_focus_step(&mut self, forward: bool, now: u64)
        requires
            old(self).state.wf(),
        ensures
            final(self).state.wf(),
            old(self).state.panes@.len() == 0 ==> *final(self) == *old(self),
            old(self).state.panes@.len() > 0 ==> final(self).focuses(
                *old(self),
                cycled(
                    old(self).state.focused_pane as int,
                    (old(self).state.panes@.len() + 1) as int,
                    forward,
                ),
                now,
            ),
    {
        let count = pane_count(&self.state);
        let at = self.state.focused_pane;
        let to = if forward {
            if at + 1 < count {
                at + 1
            } else {
                0
            }
        } else if at > 0 {
            at - 1
        } else {
            count - 1
        };
        proof {
            let n = count as int;
            let a = at as int;
            if forward {
                if a + 1 < n {
                    assert((a + 1) % n == a + 1) by (nonlinear_arith)
                        requires
                            0 <= a + 1 < n,
                    ;
                } else {
                    assert(n % n == 0) by (nonlinear_arith)
                        requires
                            n > 0,
                    ;
                }
            } else if a > 0 {
                assert((a + n - 1) % n == a - 1) by (nonlinear_arith)
                    requires
                        0 < a < n,
                ;
            } else {
                assert((n - 1) % n == n - 1) by (nonlinear_arith)
                    requires
                        n > 0,
                ;
            }
        }
        self.focus_pane(to, now);
    }

    /// Shows the sidebar, or hides it.
    pub fn action_toggle_sidebar(&mut self, now: u64)
        requires
            old(self).state.wf(),
        ensures
            final(self).state.wf(),
            ({
                let s = old(self).state;
                final(self).shows(
                    *old(self),
                    State { side: Side { open: !s.side.open, ..s.side }, ..s },
                    Seq::empty(),
                    now,
                )
            }),
    {
        self.state.side.open = !self.state.side.open;
        self.show(now);
        assert(self.effects@ =~= old(self).effects@ + (Seq::<Effect>::empty() + old(self).pumping(
            now,
        )));
    }
}

/// Going to the next and back again ends where it started.
pub proof fn stepping_back_undoes_stepping(at: int, count: int)
    requires
        0 <= at < count,
    ensures
        cycled(cycled(at, count, true), count, false) == at,
        cycled(cycled(at, count, false), count, true) == at,
{
    assert(((at + 1) % count + count - 1) % count == at) by (nonlinear_arith)
        requires
            0 <= at < count,
    ;
    assert(((at + count - 1) % count + 1) % count == at) by (nonlinear_arith)
        requires
            0 <= at < count,
    ;
}

impl EditorView {
    /// Closes the tab the context menu was opened on. Returns whether that is
    /// being asked about.
    pub fn action_close_context_tab(&mut self, blank: Buffer, now: u64) -> (asking: bool)
        requires
            old(self).state.wf(),
            blank.wf(),
        ensures
            final(self).state.wf(),
            match old(self).state.tab_bar.context {
                Some(index) => final(self).closes_tab(
                    *old(self),
                    index as int,
                    blank,
                    asking,
                    now,
                ),
                None => !asking && *final(self) == *old(self),
            },
    {
        match self.state.tab_bar.context {
            Some(index) => self.close_tab(index, blank, now),
            None => false,
        }
    }
}

} // verus!
