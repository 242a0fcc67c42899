//! Saving, and the questions it may have to ask first.

use crate::buffer::Buffer;
use crate::disk;
use crate::documents::Documents;
use crate::path::{self, changes_ignore_rules, file_name};
use crate::state::{EditorView, Effect, Project, State, Task};
use crate::tabs::Discard;
use crate::text::{joined, joined3};
use vstd::prelude::*;
use vstd::string::*;

verus! {

/// A question with its buttons, the default first.
pub struct Question {
    pub message: String,
    pub detail: String,
    pub buttons: Vec<String>,
}

/// How a question about a file changed behind the editor was answered.
#[derive(Clone, Copy, PartialEq, Eq, Structural, Debug)]
pub enum Conflict {
    /// Write the document over what is on disk.
    Overwrite,
    /// Take what is on disk and drop the document's changes.
    Reload,
    Cancel,
}

/// How writing a document went.
pub enum Written {
    /// The document as it stands now that it is on disk.
    Done(Buffer),
    /// Someone else changed the file since it was read.
    Changed(String),
    /// Someone removed it.
    Missing(String),
    Failed(String),
}

/// Where a save has come to.
#[derive(Clone, Copy, PartialEq, Eq, Structural, Debug)]
pub enum Saving {
    Saved,
    NotSaved,
    /// A question is open, or the disk is at work.
    Waiting,
}

/// What a document without a file is called.
pub open spec fn called(b: Buffer, otherwise: Seq<char>) -> Seq<char> {
    match disk::name_of(b) {
        Some(name) => name,
        None => otherwise,
    }
}

/// See [`called`].
fn name_or(b: &Buffer, otherwise: &str) -> (name: String)
    ensures
        name@ == called(*b, otherwise@),
{
    match &b.path {
        Some(place) => match file_name(place.as_str()) {
            Some(name) => name,
            None => otherwise.to_owned(),
        },
        None => otherwise.to_owned(),
    }
}

/// The question about unsaved changes in `b`.
pub fn changes_question(b: &Buffer) -> (question: Question)
    ensures
        question.message@ == "Do you want to save the changes to \u{201c}"@ + called(
            *b,
            "Untitled"@,
        ) + "\u{201d}?"@,
        question.detail@ == "Your changes will be lost if you don't save them."@,
        path::texts(question.buttons@) == seq!["Save"@, "Cancel"@, "Don't Save"@],
{
    let name = name_or(b, "Untitled");
    let message = joined3(
        "Do you want to save the changes to \u{201c}",
        name.as_str(),
        "\u{201d}?",
    );
    let mut buttons: Vec<String> = Vec::new();
    buttons.push("Save".to_owned());
    buttons.push("Cancel".to_owned());
    buttons.push("Don't Save".to_owned());
    assert(path::texts(buttons@) =~= seq!["Save"@, "Cancel"@, "Don't Save"@]);
    Question {
        message,
        detail: "Your changes will be lost if you don't save them.".to_owned(),
        buttons,
    }
}

/// What the button pressed under [`changes_question`] means. A save that was
/// cancelled from its panel, or failed, is a cancel: the work is still only
/// in memory.
pub fn discard_answer(button: usize, saved: bool) -> (answer: Discard)
    ensures
        answer == (if button == 0 {
            if saved {
                Discard::Saved
            } else {
                Discard::Cancel
            }
        } else if button == 1 {
            Discard::Cancel
        } else {
            Discard::Dropped
        }),
{
    if button == 0 {
        if saved {
            Discard::Saved
        } else {
            Discard::Cancel
        }
    } else if button == 1 {
        Discard::Cancel
    } else {
        Discard::Dropped
    }
}

/// The question when Save finds that the file changed, or is gone.
pub fn conflict_question(b: &Buffer, missing: bool) -> (question: Question)
    ensures
        question.message@ == "\u{201c}"@ + called(*b, "Untitled"@) + (if missing {
            "\u{201d} was deleted on disk."@
        } else {
            "\u{201d} has changed on disk since you opened it."@
        }),
        question.detail@ == (if missing {
            "Saving will create the file again with the text in this tab."@
        } else {
            "Overwrite keeps the text in this tab. Reload takes the version on disk and drops your changes; Undo brings them back."@
        }),
        path::texts(question.buttons@) == (if missing {
            seq!["Save Anyway"@, "Cancel"@]
        } else {
            seq!["Overwrite"@, "Cancel"@, "Reload"@]
        }),
{
    let name = name_or(b, "Untitled");
    let mut buttons: Vec<String> = Vec::new();
    if missing {
        buttons.push("Save Anyway".to_owned());
        buttons.push("Cancel".to_owned());
        assert(path::texts(buttons@) =~= seq!["Save Anyway"@, "Cancel"@]);
        Question {
            message: joined3("\u{201c}", name.as_str(), "\u{201d} was deleted on disk."),
            detail: "Saving will create the file again with the text in this tab.".to_owned(),
            buttons,
        }
    } else {
        buttons.push("Overwrite".to_owned());
        buttons.push("Cancel".to_owned());
        buttons.push("Reload".to_owned());
        assert(path::texts(buttons@) =~= seq!["Overwrite"@, "Cancel"@, "Reload"@]);
        Question {
            message: joined3(
                "\u{201c}",
                name.as_str(),
                "\u{201d} has changed on disk since you opened it.",
            ),
            detail:
                "Overwrite keeps the text in this tab. Reload takes the version on disk and drops your changes; Undo brings them back.".to_owned(),
            buttons,
        }
    }
}

/// What the button pressed under [`conflict_question`] means.
pub fn ask_about_conflict(button: usize, missing: bool) -> (answer: Conflict)
    ensures
        answer == (if button == 0 {
            Conflict::Overwrite
        } else if button == 1 || missing {
            Conflict::Cancel
        } else {
            Conflict::Reload
        }),
{
    if button == 0 {
        Conflict::Overwrite
    } else if button == 1 || missing {
        Conflict::Cancel
    } else {
        Conflict::Reload
    }
}

/// The question before unsaved changes are dropped for what is on disk.
pub fn revert_question(b: &Buffer) -> (question: Question)
    ensures
        question.message@ == "Revert \u{201c}"@ + called(*b, "Untitled"@)
            + "\u{201d} to the saved version?"@,
        question.detail@
            == "Your unsaved changes will be replaced by the file on disk. Undo brings them back."@,
        path::texts(question.buttons@) == seq!["Revert"@, "Cancel"@],
{
    let name = name_or(b, "Untitled");
    let message = joined3(
        "Revert \u{201c}",
        name.as_str(),
        "\u{201d} to the saved version?",
    );
    let mut buttons: Vec<String> = Vec::new();
    buttons.push("Revert".to_owned());
    buttons.push("Cancel".to_owned());
    assert(path::texts(buttons@) =~= seq!["Revert"@, "Cancel"@]);
    Question {
        message,
        detail:
            "Your unsaved changes will be replaced by the file on disk. Undo brings them back.".to_owned(),
        buttons,
    }
}

/// How a note on going back to the disk ends: in success, or with the error.
pub open spec fn disk_outcome(
    outcome: Result<Vec<u8>, String>,
    done: Seq<char>,
    failed: Seq<char>,
) -> Seq<char> {
    match outcome {
        Ok(_) => done,
        Err(error) => failed + error@,
    }
}

impl EditorView {
    /// This is `before` with the front document reloaded if it could be read.
    pub open spec fn takes_disk(
        &self,
        before: EditorView,
        outcome: Result<Vec<u8>, String>,
    ) -> bool {
        &&& self.becomes(
            before,
            before.state.with_docs(self.state.pane.docs),
            Seq::empty(),
        )
        &&& match outcome {
            Ok(bytes) => {
                &&& self.state.pane.docs.fronts(
                    before.state.pane.docs,
                    self.state.pane.docs.front(),
                )
                &&& self.state.pane.docs.front().reloads(
                    before.state.pane.docs.front(),
                    bytes@,
                )
            },
            Err(_) => self.state.pane.docs == before.state.pane.docs,
        }
    }

    /// This is `before` with `note` said and the title following.
    pub open spec fn says_so(&self, before: EditorView, note: Seq<char>, now: u64) -> bool {
        &&& self.state.says(note, now)
        &&& self.becomes(
            before,
            before.state.saying(self.state.status.message->0),
            seq![Effect::SyncTitle],
        )
    }

    /// This is `before` gone back to what is on disk, or told why not.
    pub open spec fn goes_back(
        &self,
        before: EditorView,
        outcome: Result<Vec<u8>, String>,
        note: Seq<char>,
        now: u64,
    ) -> bool {
        exists|read: EditorView, followed: EditorView|
            {
                &&& #[trigger] read.takes_disk(before, outcome)
                &&& #[trigger] followed.starts_over(read, true, now)
                &&& self.says_so(followed, note, now)
            }
    }

    /// Goes back to what is on disk.
    fn go_back(&mut self, outcome: Result<Vec<u8>, String>, note: String, now: u64)
        requires
            old(self).state.wf(),
        ensures
            final(self).state.wf(),
            final(self).goes_back(*old(self), outcome, note@, now),
    {
        let ghost result = outcome;
        if let Ok(bytes) = outcome {
            let at = self.state.pane.docs.active;
            self.state.pane.docs.list[at].reload(bytes);
        }
        let ghost read = *self;
        assert(read.effects@ =~= old(self).effects@ + Seq::<Effect>::empty());
        assert(read.takes_disk(*old(self), result));
        self.after_reload(true, now);
        let ghost followed = *self;
        assert(followed.starts_over(read, true, now));
        self.say(note, now);
        self.ask(Effect::SyncTitle);
        assert(self.says_so(followed, note@, now));
    }

    /// File > Revert to Saved: back to what is on disk, asking first when that
    /// drops unsaved changes.
    pub fn revert_to_saved(&mut self)
        requires
            old(self).state.wf(),
        ensures
            ({
                let front = old(self).state.pane.docs.front();
                final(self).becomes(
                    *old(self),
                    old(self).state,
                    if front.path is None {
                        Seq::empty()
                    } else if front.dirty {
                        seq![Effect::AskToRevert]
                    } else {
                        seq![Effect::ReloadFromDisk(front.id)]
                    },
                )
            }),
    {
        let active = self.state.pane.docs.active();
        let id = active.id;
        if active.path.is_none() {
            assert(self.effects@ =~= old(self).effects@ + Seq::<Effect>::empty());
        } else if active.dirty {
            self.ask(Effect::AskToRevert);
        } else {
            self.ask(Effect::ReloadFromDisk(id));
        }
    }

    /// The document was read again, or not.
    pub fn reverted(&mut self, outcome: Result<Vec<u8>, String>, now: u64)
        requires
            old(self).state.wf(),
        ensures
            final(self).state.wf(),
            final(self).goes_back(
                *old(self),
                outcome,
                disk_outcome(outcome, "reverted to the saved version"@, "revert failed: "@),
                now,
            ),
    {
        let note = match &outcome {
            Ok(_) => "reverted to the saved version".to_owned(),
            Err(error) => joined("revert failed: ", error.as_str()),
        };
        self.go_back(outcome, note, now);
    }

    /// This is `before` with the save panel asked for, or the document being
    /// written in place.
    pub open spec fn starts_save(&self, before: EditorView, force_panel: bool) -> bool {
        let front = before.state.pane.docs.front();
        &&& self.state == before.state
        &&& self.ivars == before.ivars
        &&& self.effects@.len() == before.effects@.len() + 1
        &&& self.effects@.drop_last() == before.effects@
        &&& if force_panel || front.path is None {
            self.effects@.last() matches Effect::ShowSavePanel(name) && name@ == called(
                front,
                "Untitled.txt"@,
            )
        } else {
            self.effects@.last() == Effect::WriteActive(None, false)
        }
    }

    /// Saves, asking where when there is no file yet, or when `force_panel`
    /// says so.
    pub fn save(&mut self, force_panel: bool)
        requires
            old(self).state.wf(),
        ensures
            final(self).starts_save(*old(self), force_panel),
    {
        if force_panel || self.state.pane.docs.active().path.is_none() {
            let name = name_or(self.state.pane.docs.active(), "Untitled.txt");
            self.effects.push(Effect::ShowSavePanel(name));
        } else {
            self.effects.push(Effect::WriteActive(None, false));
        }
        assert(self.effects@.drop_last() =~= old(self).effects@);
    }

    /// The save panel closed with `chosen`, or without.
    pub fn save_chosen(&mut self, chosen: Option<String>) -> (saving: Saving)
        ensures
            chosen is None ==> saving is NotSaved && *final(self) == *old(self),
            chosen matches Some(place) ==> saving is Waiting && final(self).becomes(
                *old(self),
                old(self).state,
                seq![Effect::WriteActive(Some(place), false)],
            ),
    {
        match chosen {
            None => Saving::NotSaved,
            Some(place) => {
                self.ask(Effect::WriteActive(Some(place), false));
                Saving::Waiting
            },
        }
    }

    /// What a save of `saved` asks for. `settings` is whether it is the
    /// settings file.
    pub open spec fn save_work(&self, saved: Buffer, settings: bool) -> Seq<Effect> {
        let root = self.state.side.tree.root;
        seq![Effect::RefreshGit, Effect::PokeIndexer] + (match saved.path {
            None => seq![Effect::ResumeDisplayLink],
            Some(place) => (if settings {
                seq![Effect::Run(Task::ApplySettings)]
            } else {
                Seq::empty()
            }) + (if path::sets_ignore_rules(place@) {
                match root {
                    Some(root) => seq![Effect::ReadIgnored(root)],
                    None => Seq::empty(),
                }
            } else {
                Seq::empty()
            }) + seq![
                Effect::ResumeDisplayLink,
                Effect::Run(Task::LspFlushChanges),
                Effect::Run(Task::LspSyncOpen),
                Effect::DidSave(place),
            ] + (if self.state.servers.format_on_save && !self.state.servers.saving_formatted {
                seq![Effect::Run(Task::FormatDocument(true))]
            } else {
                Seq::empty()
            }),
        }) + seq![Effect::SyncTitle]
    }
}

impl State {
    /// The state with `saved` in front, and what Git ignores being read again
    /// if the save may have changed it.
    pub open spec fn after_save(self, docs: Documents, saved: Buffer) -> State {
        let rules = saved.path matches Some(place) && path::sets_ignore_rules(place@);
        State {
            project: Project {
                reading_ignored: self.project.reading_ignored || (rules
                    && self.side.tree.root is Some),
                ..self.project
            },
            ..self.with_docs(docs)
        }
    }
}

/// What is said after a save.
pub open spec fn saved_note(saved: Buffer) -> Seq<char> {
    match saved.path {
        Some(place) => "saved "@ + place@,
        None => "saved"@,
    }
}

impl EditorView {
    /// This is `before` after the document was written as `saved`.
    pub open spec fn has_saved(
        &self,
        before: EditorView,
        saved: Buffer,
        settings: bool,
        now: u64,
    ) -> bool {
        &&& self.state.pane.docs.fronts(before.state.pane.docs, saved)
        &&& self.state.says(saved_note(saved), now)
        &&& self.becomes(
            before,
            before.state.after_save(self.state.pane.docs, saved).saying(
                self.state.status.message->0,
            ),
            before.save_work(saved, settings),
        )
    }

    /// Follows up a save that reached the disk.
    #[verifier::rlimit(40)]
    fn finish_save(&mut self, saved: Buffer, settings: bool, now: u64)
        requires
            old(self).state.wf(),
            saved.wf(),
        ensures
            final(self).state.wf(),
            final(self).has_saved(*old(self), saved, settings, now),
    {
        let ghost document = saved;
        let place = saved.path.clone();
        let at = self.state.pane.docs.active;
        self.state.pane.docs.list[at] = saved;
        let ghost before = self.effects@;
        self.effects.push(Effect::RefreshGit);
        self.effects.push(Effect::PokeIndexer);
        let ghost start = seq![Effect::RefreshGit, Effect::PokeIndexer];
        assert(self.effects@ =~= before + start);
        match place {
            None => {
                self.say("saved".to_owned(), now);
                self.effects.push(Effect::ResumeDisplayLink);
                self.effects.push(Effect::SyncTitle);
                assert(self.effects@ =~= before + (start + seq![Effect::ResumeDisplayLink] + seq![
                    Effect::SyncTitle,
                ]));
            },
            Some(place) => {
                self.say(joined("saved ", place.as_str()), now);
                self.follow_save(place, settings);
                assert(self.effects@ =~= before + old(self).save_work(document, settings));
            },
        }
    }

    /// What a save to `place` asks for beyond Git and the index.
    fn follow_save(&mut self, place: String, settings: bool)
        ensures
            ({
                let project = old(self).state.project;
                let root = old(self).state.side.tree.root;
                let rules = path::sets_ignore_rules(place@);
                final(self).becomes(
                    *old(self),
                    State {
                        project: Project {
                            reading_ignored: project.reading_ignored || (rules && root is Some),
                            ..project
                        },
                        ..old(self).state
                    },
                    (if settings {
                        seq![Effect::Run(Task::ApplySettings)]
                    } else {
                        Seq::empty()
                    }) + (if rules {
                        match root {
                            Some(root) => seq![Effect::ReadIgnored(root)],
                            None => Seq::empty(),
                        }
                    } else {
                        Seq::empty()
                    }) + seq![
                        Effect::ResumeDisplayLink,
                        Effect::Run(Task::LspFlushChanges),
                        Effect::Run(Task::LspSyncOpen),
                        Effect::DidSave(place),
                    ] + (if old(self).state.servers.format_on_save && !old(
                        self,
                    ).state.servers.saving_formatted {
                        seq![Effect::Run(Task::FormatDocument(true))]
                    } else {
                        Seq::empty()
                    }) + seq![Effect::SyncTitle],
                )
            }),
    {
        let ghost before = self.effects@;
        let ghost mut done = Seq::<Effect>::empty();
        assert(self.effects@ =~= before + done);
        if settings {
            self.effects.push(Effect::Run(Task::ApplySettings));
            proof {
                done = done + seq![Effect::Run(Task::ApplySettings)];
            }
            assert(self.effects@ =~= before + done);
        }
        if changes_ignore_rules(place.as_str()) {
            if let Some(root) = &self.state.side.tree.root {
                self.state.project.reading_ignored = true;
                self.effects.push(Effect::ReadIgnored(root.clone()));
                proof {
                    done = done + seq![Effect::ReadIgnored(old(self).state.side.tree.root->0)];
                }
                assert(self.effects@ =~= before + done);
            }
        }
        let ghost named = place;
        self.effects.push(Effect::ResumeDisplayLink);
        self.effects.push(Effect::Run(Task::LspFlushChanges));
        self.effects.push(Effect::Run(Task::LspSyncOpen));
        self.effects.push(Effect::DidSave(place));
        proof {
            done = done + seq![
                Effect::ResumeDisplayLink,
                Effect::Run(Task::LspFlushChanges),
                Effect::Run(Task::LspSyncOpen),
                Effect::DidSave(named),
            ];
        }
        assert(self.effects@ =~= before + done);
        if self.state.servers.format_on_save && !self.state.servers.saving_formatted {
            self.effects.push(Effect::Run(Task::FormatDocument(true)));
            proof {
                done = done + seq![Effect::Run(Task::FormatDocument(true))];
            }
            assert(self.effects@ =~= before + done);
        }
        self.effects.push(Effect::SyncTitle);
        assert(self.effects@ =~= before + (done + seq![Effect::SyncTitle]));
    }

    /// This is `before` after a save that came to nothing.
    pub open spec fn has_failed(&self, before: EditorView, error: Seq<char>, now: u64) -> bool {
        self.says_so(before, "save failed: "@ + error, now)
    }

    /// The document was written, or not. `chosen` is whether somebody picked
    /// the place, in which case whatever was there is not asked about;
    /// `settings` whether it is the settings file.
    ///
    /// When someone else changed or removed the file, that is asked about
    /// first; see [`EditorView::conflict_answered`].
    pub fn save_written(
        &mut self,
        written: Written,
        chosen: bool,
        settings: bool,
        now: u64,
    ) -> (saving: Saving)
        requires
            old(self).state.wf(),
            written matches Written::Done(saved) ==> saved.wf(),
        ensures
            final(self).state.wf(),
            match written {
                Written::Done(saved) => {
                    &&& saving is Saved
                    &&& final(self).has_saved(*old(self), saved, settings, now)
                },
                Written::Changed(error) | Written::Missing(error) => if chosen {
                    &&& saving is NotSaved
                    &&& final(self).has_failed(*old(self), error@, now)
                } else {
                    &&& saving is Waiting
                    &&& final(self).becomes(
                        *old(self),
                        old(self).state,
                        seq![Effect::AskAboutConflict(written is Missing)],
                    )
                },
                Written::Failed(error) => {
                    &&& saving is NotSaved
                    &&& final(self).has_failed(*old(self), error@, now)
                },
            },
    {
        match written {
            Written::Done(saved) => {
                self.finish_save(saved, settings, now);
                Saving::Saved
            },
            Written::Changed(error) => {
                if chosen {
                    self.fail_save(error, now);
                    Saving::NotSaved
                } else {
                    self.ask(Effect::AskAboutConflict(false));
                    Saving::Waiting
                }
            },
            Written::Missing(error) => {
                if chosen {
                    self.fail_save(error, now);
                    Saving::NotSaved
                } else {
                    self.ask(Effect::AskAboutConflict(true));
                    Saving::Waiting
                }
            },
            Written::Failed(error) => {
                self.fail_save(error, now);
                Saving::NotSaved
            },
        }
    }

    /// Says why a save came to nothing.
    fn fail_save(&mut self, error: String, now: u64)
        ensures
            old(self).state.wf() ==> final(self).state.wf(),
            final(self).has_failed(*old(self), error@, now),
    {
        self.say(joined("save failed: ", error.as_str()), now);
        self.ask(Effect::SyncTitle);
    }

    /// The question about a changed or missing file was answered.
    pub fn conflict_answered(&mut self, answer: Conflict, now: u64) -> (saving: Saving)
        requires
            old(self).state.wf(),
        ensures
            final(self).state.wf(),
            match answer {
                Conflict::Overwrite => {
                    &&& saving is Waiting
                    &&& final(self).becomes(
                        *old(self),
                        old(self).state,
                        seq![Effect::WriteActive(None, true)],
                    )
                },
                Conflict::Reload => {
                    &&& saving is Waiting
                    &&& final(self).becomes(
                        *old(self),
                        old(self).state,
                        seq![Effect::ReloadFromDisk(old(self).state.pane.docs.front().id)],
                    )
                },
                Conflict::Cancel => {
                    &&& saving is NotSaved
                    &&& final(self).state.says("not saved"@, now)
                    &&& final(self).becomes(
                        *old(self),
                        old(self).state.saying(final(self).state.status.message->0),
                        Seq::empty(),
                    )
                },
            },
    {
        match answer {
            Conflict::Overwrite => {
                self.ask(Effect::WriteActive(None, true));
                Saving::Waiting
            },
            Conflict::Reload => {
                let id = self.state.pane.docs.active().id;
                self.ask(Effect::ReloadFromDisk(id));
                Saving::Waiting
            },
            Conflict::Cancel => {
                self.say("not saved".to_owned(), now);
                assert(self.effects@ =~= old(self).effects@ + Seq::<Effect>::empty());
                Saving::NotSaved
            },
        }
    }

    /// The document was written over what was on disk, or not.
    pub fn save_overwritten(&mut self, written: Result<Buffer, String>, settings: bool, now: u64) -> (
    saving: Saving)
        requires
            old(self).state.wf(),
            written matches Ok(saved) ==> saved.wf(),
        ensures
            final(self).state.wf(),
            match written {
                Ok(saved) => {
                    &&& saving is Saved
                    &&& final(self).has_saved(*old(self), saved, settings, now)
                },
                Err(error) => {
                    &&& saving is NotSaved
                    &&& final(self).has_failed(*old(self), error@, now)
                },
            },
    {
        match written {
            Ok(saved) => {
                self.finish_save(saved, settings, now);
                Saving::Saved
            },
            Err(error) => {
                self.fail_save(error, now);
                Saving::NotSaved
            },
        }
    }

    /// Instead of saving, what is on disk was read again, or not.
    pub fn conflict_reloaded(&mut self, outcome: Result<Vec<u8>, String>, now: u64)
        requires
            old(self).state.wf(),
        ensures
            final(self).state.wf(),
            final(self).goes_back(
                *old(self),
                outcome,
                disk_outcome(outcome, "reloaded from disk"@, "reload failed: "@),
                now,
            ),
    {
        let note = match &outcome {
            Ok(_) => "reloaded from disk".to_owned(),
            Err(error) => joined("reload failed: ", error.as_str()),
        };
        self.go_back(outcome, note, now);
    }
}

} // verus!
