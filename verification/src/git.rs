//! Source control in the sidebar.

use crate::buffer::Field;
use crate::keys::{self, EditOp, KeyEvent, Motion};
use crate::palette::Branch;
use crate::state::{EditorView, Effect, Fields, GitVerb, State, Target, Task};
use crate::text::{joined, same};
use vstd::prelude::*;

verus! {

/// What the window knows of the repository and its panel.
pub struct GitPanel {
    /// The top of the repository, when there is one.
    pub root: Option<String>,
    /// The branch that is checked out.
    pub branch: String,
    /// The commit message being written.
    pub message: Field,
    /// Whether the editor column shows a change instead of the document.
    pub showing_diff: bool,
    /// Whether Git is at work.
    pub busy: bool,
    /// Whether the sidebar shows source control rather than the tree.
    pub open: bool,
    /// Whether the commit message field has the keyboard. Source control is
    /// docked, not modal, so it only takes typing when it is asked to.
    pub focus: bool,
}

/// What a key does while source control is showing.
#[derive(Clone, Copy, PartialEq, Eq, Structural, Debug)]
pub enum GitKey {
    Commit,
    /// Escape with the message field focused.
    LeaveField,
    /// Escape with a change showing.
    LeaveDiff,
    /// Escape with neither: back to the tree.
    LeaveView,
    /// An edit of the commit message.
    Edit(EditOp),
    /// Backspace in the message; over a word when nothing is selected.
    Delete(bool),
    /// Nothing, and nobody else gets it.
    Swallow,
    Text,
    /// The editor's business.
    Ignored,
}

/// Only the commit message field claims keys, and only once it has been
/// clicked: a docked view that ate every keystroke would make the editor
/// beside it unusable. Escape steps back out: first the field, then the diff,
/// then the view itself.
pub open spec fn git_key(git: GitPanel, event: KeyEvent) -> GitKey {
    let motion = keys::motion_with(event.flags);
    let option = event.flags.option;
    if event.flags.command {
        if event.code == keys::RETURN {
            GitKey::Commit
        } else {
            GitKey::Ignored
        }
    } else if event.code == keys::ESCAPE {
        if git.focus {
            GitKey::LeaveField
        } else if git.showing_diff {
            GitKey::LeaveDiff
        } else {
            GitKey::LeaveView
        }
    } else if !git.focus {
        GitKey::Ignored
    } else if event.code == keys::DELETE {
        GitKey::Delete(option && !git.message.has_selection())
    } else if event.code == keys::LEFT {
        GitKey::Edit(
            if option {
                EditOp::WordLeft(motion)
            } else {
                EditOp::Left(motion)
            },
        )
    } else if event.code == keys::RIGHT {
        GitKey::Edit(
            if option {
                EditOp::WordRight(motion)
            } else {
                EditOp::Right(motion)
            },
        )
    } else if event.code == keys::RETURN || event.code == keys::TAB {
        GitKey::Swallow
    } else {
        GitKey::Text
    }
}

/// See [`git_key`].
fn git_key_of(git: &GitPanel, event: &KeyEvent) -> (k: GitKey)
    ensures
        k == git_key(*git, *event),
{
    let motion = keys::motion_for(event.flags);
    let option = event.flags.option;
    if event.flags.command {
        if event.code == keys::RETURN {
            GitKey::Commit
        } else {
            GitKey::Ignored
        }
    } else if event.code == keys::ESCAPE {
        if git.focus {
            GitKey::LeaveField
        } else if git.showing_diff {
            GitKey::LeaveDiff
        } else {
            GitKey::LeaveView
        }
    } else if !git.focus {
        GitKey::Ignored
    } else if event.code == keys::DELETE {
        GitKey::Delete(option && git.message.cursor == git.message.anchor)
    } else if event.code == keys::LEFT {
        GitKey::Edit(
            if option {
                EditOp::WordLeft(motion)
            } else {
                EditOp::Left(motion)
            },
        )
    } else if event.code == keys::RIGHT {
        GitKey::Edit(
            if option {
                EditOp::WordRight(motion)
            } else {
                EditOp::Right(motion)
            },
        )
    } else if event.code == keys::RETURN || event.code == keys::TAB {
        GitKey::Swallow
    } else {
        GitKey::Text
    }
}

impl State {
    /// The state with another source-control panel.
    pub open spec fn with_git(self, git: GitPanel) -> State {
        State { git, ..self }
    }

    /// The state with the sidebar switched to source control, or to the tree.
    ///
    /// Opening source control does not take the keyboard, and leaving it gives
    /// the editor column back to the document.
    pub open spec fn with_sidebar_view(self, scm: bool) -> State {
        if scm {
            State {
                git: GitPanel { open: true, focus: false, ..self.git },
                fields: Fields { palette: None, goto_line: None, ..self.fields },
                ..self
            }
        } else {
            State {
                git: GitPanel { open: false, focus: false, showing_diff: false, ..self.git },
                ..self
            }
        }
    }
}

/// What switching the sidebar's view asks for: fresh status, and the sidebar
/// itself when it was hidden.
pub open spec fn sidebar_view_work(state: State, scm: bool) -> Seq<Effect> {
    (if scm {
        seq![Effect::RefreshGit]
    } else {
        Seq::empty()
    }) + (if scm && !state.side.open {
        seq![Effect::Run(Task::ToggleSidebar)]
    } else {
        Seq::empty()
    }) + seq![Effect::ResumeDisplayLink]
}

/// Where in the source-control column a click landed.
#[derive(Clone, Copy, PartialEq, Eq, Structural, Debug)]
pub enum GitSpot {
    Refresh,
    Commit,
    /// The message field, and the caret position under the pointer.
    Message(Option<usize>),
    /// A file's row: which change, whether it is staged, and whether the click
    /// was on its staging control.
    File {
        change: usize,
        staged: bool,
        toggle: bool,
    },
    Section,
    Nowhere,
}

/// What a click in the column leaves of the panel.
pub open spec fn clicked_panel(git: GitPanel, spot: GitSpot) -> GitPanel {
    match spot {
        GitSpot::Message(Some(at)) => GitPanel {
            focus: true,
            message: Field { cursor: at, anchor: at, ..git.message },
            ..git
        },
        GitSpot::Message(None) => GitPanel { focus: true, ..git },
        GitSpot::File { change: _, staged: _, toggle: false } => GitPanel {
            focus: false,
            showing_diff: true,
            ..git
        },
        _ => git,
    }
}

/// What a click in the column asks for.
pub open spec fn click_work(spot: GitSpot) -> Seq<Effect> {
    (match spot {
        GitSpot::Refresh => seq![Effect::RefreshGit],
        GitSpot::Commit => seq![Effect::Commit],
        GitSpot::File { change, staged, toggle } => if toggle {
            seq![Effect::Stage(change, !staged)]
        } else {
            seq![Effect::SelectChange(change)]
        },
        _ => Seq::empty(),
    }).push(Effect::ResumeDisplayLink)
}

impl EditorView {
    /// Switches between the file tree and source control.
    pub fn open_git(&mut self, now: u64)
        ensures
            final(self).shows(
                *old(self),
                old(self).state.with_sidebar_view(!old(self).state.git.open),
                sidebar_view_work(old(self).state, !old(self).state.git.open),
                now,
            ),
            old(self).state.wf() ==> final(self).state.wf(),
    {
        let scm = self.state.git.open;
        self.set_sidebar_view(!scm, now);
    }

    /// Switches the sidebar between the file tree and source control.
    ///
    /// Source control is a view of the project, not a modal: opening it does
    /// not take the keyboard.
    pub fn set_sidebar_view(&mut self, scm: bool, now: u64)
        ensures
            final(self).shows(
                *old(self),
                old(self).state.with_sidebar_view(scm),
                sidebar_view_work(old(self).state, scm),
                now,
            ),
            old(self).state.wf() ==> final(self).state.wf(),
    {
        self.state.git.open = scm;
        self.state.git.focus = false;
        if scm {
            self.state.fields.palette = None;
            self.state.fields.goto_line = None;
            self.effects.push(Effect::RefreshGit);
            if !self.state.side.open {
                self.effects.push(Effect::Run(Task::ToggleSidebar));
            }
        } else {
            self.state.git.showing_diff = false;
        }
        self.effects.push(Effect::ResumeDisplayLink);
        let ghost done = sidebar_view_work(old(self).state, scm);
        assert(self.effects@ =~= old(self).effects@ + done);
        self.show(now);
        assert(self.effects@ =~= old(self).effects@ + (done + old(self).pumping(now)));
    }

    /// This is `before` after a key while source control is showing.
    pub open spec fn handles_git_key(
        &self,
        before: EditorView,
        event: KeyEvent,
        handled: bool,
        now: u64,
    ) -> bool {
        let git = before.state.git;
        let key = git_key(git, event);
        &&& handled == !(key is Ignored)
        &&& match key {
            GitKey::Ignored | GitKey::Swallow => *self == before,
            GitKey::Commit => self.becomes(
                before,
                before.state,
                seq![Effect::Commit, Effect::ResumeDisplayLink],
            ),
            GitKey::LeaveField => self.marks(
                before,
                before.state.with_git(GitPanel { focus: false, ..git }),
                Seq::empty(),
            ),
            GitKey::LeaveDiff => self.marks(
                before,
                before.state.with_git(GitPanel { showing_diff: false, ..git }),
                Seq::empty(),
            ),
            GitKey::LeaveView => self.shows(
                before,
                before.state.with_sidebar_view(false),
                sidebar_view_work(before.state, false),
                now,
            ),
            GitKey::Edit(op) => self.becomes(
                before,
                before.state,
                seq![Effect::Edit(Target::CommitMessage, op), Effect::ResumeDisplayLink],
            ),
            GitKey::Delete(word) => self.becomes(
                before,
                before.state,
                (if word {
                    seq![Effect::Edit(Target::CommitMessage, EditOp::WordLeft(Motion::Extend))]
                } else {
                    Seq::empty()
                }) + seq![
                    Effect::Edit(Target::CommitMessage, EditOp::Backspace),
                    Effect::ResumeDisplayLink,
                ],
            ),
            GitKey::Text => self.becomes(before, before.state, seq![Effect::Interpret]),
        }
    }

    /// Keys while source control is showing.
    pub fn handle_git_key(&mut self, event: &KeyEvent, now: u64) -> (handled: bool)
        ensures
            final(self).handles_git_key(*old(self), *event, handled, now),
            old(self).state.wf() ==> final(self).state.wf(),
    {
        let key = git_key_of(&self.state.git, event);
        match key {
            GitKey::Ignored => {
                return false;
            },
            GitKey::Swallow => {},
            GitKey::Commit => {
                self.effects.push(Effect::Commit);
                self.effects.push(Effect::ResumeDisplayLink);
                assert(self.effects@ =~= old(self).effects@ + seq![
                    Effect::Commit,
                    Effect::ResumeDisplayLink,
                ]);
            },
            GitKey::LeaveField => {
                self.state.git.focus = false;
                self.request_redraw();
            },
            GitKey::LeaveDiff => {
                self.state.git.showing_diff = false;
                self.request_redraw();
            },
            GitKey::LeaveView => {
                self.set_sidebar_view(false, now);
            },
            GitKey::Edit(op) => {
                self.effects.push(Effect::Edit(Target::CommitMessage, op));
                self.effects.push(Effect::ResumeDisplayLink);
                assert(self.effects@ =~= old(self).effects@ + seq![
                    Effect::Edit(Target::CommitMessage, op),
                    Effect::ResumeDisplayLink,
                ]);
            },
            GitKey::Delete(word) => {
                let ghost first = if word {
                    seq![Effect::Edit(Target::CommitMessage, EditOp::WordLeft(Motion::Extend))]
                } else {
                    Seq::<Effect>::empty()
                };
                if word {
                    self.effects.push(
                        Effect::Edit(Target::CommitMessage, EditOp::WordLeft(Motion::Extend)),
                    );
                }
                self.effects.push(Effect::Edit(Target::CommitMessage, EditOp::Backspace));
                self.effects.push(Effect::ResumeDisplayLink);
                assert(self.effects@ =~= old(self).effects@ + (first + seq![
                    Effect::Edit(Target::CommitMessage, EditOp::Backspace),
                    Effect::ResumeDisplayLink,
                ]));
            },
            GitKey::Text => {
                self.ask(Effect::Interpret);
            },
        }
        true
    }

    /// A click inside the source-control column. Returns whether it landed on
    /// something; the caller falls through to the file tree otherwise.
    ///
    /// The staging control is on the row, so a click near the trailing edge
    /// stages rather than selects.
    pub fn git_click(&mut self, spot: GitSpot, now: u64) -> (handled: bool)
        ensures
            old(self).state.wf() ==> final(self).state.wf(),
            handled == !(spot is Section || spot is Nowhere),
            final(self).shows(
                *old(self),
                old(self).state.with_git(clicked_panel(old(self).state.git, spot)),
                click_work(spot),
                now,
            ),
    {
        let mut handled = true;
        match spot {
            GitSpot::Refresh => {
                self.effects.push(Effect::RefreshGit);
            },
            GitSpot::Commit => {
                self.effects.push(Effect::Commit);
            },
            GitSpot::Message(caret) => {
                self.state.git.focus = true;
                if let Some(at) = caret {
                    self.state.git.message.cursor = at;
                    self.state.git.message.anchor = at;
                }
            },
            GitSpot::File { change, staged, toggle } => {
                if toggle {
                    self.effects.push(Effect::Stage(change, !staged));
                } else {
                    self.state.git.focus = false;
                    self.state.git.showing_diff = true;
                    self.effects.push(Effect::SelectChange(change));
                }
            },
            GitSpot::Section | GitSpot::Nowhere => {
                handled = false;
            },
        }
        self.effects.push(Effect::ResumeDisplayLink);
        let ghost done = click_work(spot);
        assert(self.effects@ =~= old(self).effects@ + done);
        self.show(now);
        assert(self.effects@ =~= old(self).effects@ + (done + old(self).pumping(now)));
        handled
    }

    /// The palette lists the local branches, and a name that is not one offers
    /// to create it. `branches` is what Git answered.
    pub fn open_branch_picker(&mut self, branches: Result<Vec<Branch>, String>, now: u64)
        ensures
            old(self).state.wf() ==> final(self).state.wf(),
            old(self).state.git.root is None ==> {
                &&& final(self).state.says("not a Git repository"@, now)
                &&& final(self).marks(
                    *old(self),
                    old(self).state.saying(final(self).state.status.message->0),
                    Seq::empty(),
                )
            },
            old(self).state.git.root is Some ==> match branches {
                Err(error) => {
                    &&& final(self).state.says(error@, now)
                    &&& final(self).marks(
                        *old(self),
                        old(self).state.saying(final(self).state.status.message->0),
                        Seq::empty(),
                    )
                },
                Ok(list) => {
                    &&& final(self).state.fields.palette matches Some(palette)
                        && palette.query.text@.len() == 0 && palette.selected == 0
                    &&& final(self).marks(
                        *old(self),
                        State {
                            fields: Fields {
                                palette: final(self).state.fields.palette,
                                palette_scroll: 0,
                                branch_list: Some(list),
                                ..old(self).state.fields
                            },
                            git: GitPanel { open: false, ..old(self).state.git },
                            ..old(self).state
                        },
                        seq![Effect::ReadCommands, Effect::ReadSymbols] + old(self).pumping(now)
                            + old(self).pumping(now),
                    )
                },
            },
    {
        if self.state.git.root.is_none() {
            self.say("not a Git repository".to_owned(), now);
            self.request_redraw();
            return;
        }
        match branches {
            Err(error) => {
                self.say(error, now);
                self.request_redraw();
            },
            Ok(list) => {
                self.open_palette(now);
                self.state.fields.branch_list = Some(list);
                self.show(now);
                assert(self.effects@ =~= old(self).effects@ + (seq![
                    Effect::ReadCommands,
                    Effect::ReadSymbols,
                ] + old(self).pumping(now) + old(self).pumping(now)));
            },
        }
    }

    /// Switches to a branch, or creates it.
    pub fn switch_branch(&mut self, name: String, create: bool, now: u64)
        ensures
            old(self).state.wf() ==> final(self).state.wf(),
            !create && name@ == old(self).state.git.branch@ ==> {
                &&& final(self).state.says("already on "@ + name@, now)
                &&& final(self).marks(
                    *old(self),
                    old(self).state.saying(final(self).state.status.message->0),
                    seq![Effect::ResumeDisplayLink],
                )
            },
            create || name@ != old(self).state.git.branch@ ==> final(self).marks(
                *old(self),
                old(self).state,
                seq![
                    if create {
                        Effect::CreateBranch(name)
                    } else {
                        Effect::SwitchBranch(name)
                    },
                    Effect::ResumeDisplayLink,
                ],
            ),
    {
        let ghost wanted = name;
        let here = same(name.as_str(), self.state.git.branch.as_str());
        if !create && here {
            self.say(joined("already on ", name.as_str()), now);
        } else if create {
            self.effects.push(Effect::CreateBranch(name));
        } else {
            self.effects.push(Effect::SwitchBranch(name));
        }
        self.effects.push(Effect::ResumeDisplayLink);
        let ghost done = if !create && here {
            seq![Effect::ResumeDisplayLink]
        } else {
            seq![
                if create {
                    Effect::CreateBranch(wanted)
                } else {
                    Effect::SwitchBranch(wanted)
                },
                Effect::ResumeDisplayLink,
            ]
        };
        assert(self.effects@ =~= old(self).effects@ + done);
        self.request_redraw();
        assert(self.effects@ =~= old(self).effects@ + done);
    }

    /// Fetch, pull or push.
    pub fn git_remote(&mut self, what: GitVerb, now: u64)
        ensures
            old(self).state.wf() ==> final(self).state.wf(),
            final(self).state.says(
                match old(self).state.git.root {
                    None => "not a Git repository"@,
                    Some(_) => verb_text(what) + "\u{2026}"@,
                },
                now,
            ),
            final(self).marks(
                *old(self),
                old(self).state.saying(final(self).state.status.message->0),
                match old(self).state.git.root {
                    None => seq![Effect::ResumeDisplayLink],
                    Some(_) => seq![Effect::GitRemote(what), Effect::ResumeDisplayLink],
                },
            ),
    {
        if self.state.git.root.is_none() {
            self.say("not a Git repository".to_owned(), now);
        } else {
            self.effects.push(Effect::GitRemote(what));
            self.say(joined(verb_name(what), "\u{2026}"), now);
        }
        self.effects.push(Effect::ResumeDisplayLink);
        let ghost done = match old(self).state.git.root {
            None => seq![Effect::ResumeDisplayLink],
            Some(_) => seq![Effect::GitRemote(what), Effect::ResumeDisplayLink],
        };
        assert(self.effects@ =~= old(self).effects@ + done);
        self.request_redraw();
        assert(self.effects@ =~= old(self).effects@ + done);
    }
}

/// What a remote command is called while it runs.
pub open spec fn verb_text(what: GitVerb) -> Seq<char> {
    match what {
        GitVerb::Fetch => "fetching"@,
        GitVerb::Pull => "pulling"@,
        GitVerb::Push => "pushing"@,
    }
}

/// See [`verb_text`].
fn verb_name(what: GitVerb) -> (s: &'static str)
    ensures
        s@ == verb_text(what),
{
    match what {
        GitVerb::Fetch => "fetching",
        GitVerb::Pull => "pulling",
        GitVerb::Push => "pushing",
    }
}

/// Opening or leaving source control never gives the keyboard to its field.
pub proof fn source_control_does_not_take_the_keyboard(state: State, scm: bool)
    ensures
        !state.with_sidebar_view(scm).git.focus,
        state.with_sidebar_view(scm).field_open() ==> state.field_open(),
{
}

/// Escape steps out of source control one thing at a time: the field, the
/// change, the view.
pub proof fn escape_steps_out_of_source_control(git: GitPanel, event: KeyEvent)
    requires
        event.code == keys::ESCAPE,
        !event.flags.command,
    ensures
        git.focus ==> git_key(git, event) == GitKey::LeaveField,
        !git.focus && git.showing_diff ==> git_key(git, event) == GitKey::LeaveDiff,
        !git.focus && !git.showing_diff ==> git_key(git, event) == GitKey::LeaveView,
{
}

} // verus!
