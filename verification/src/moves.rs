//! What follows a file being created, renamed or moved.

use crate::buffer::Buffer;
use crate::panes::{self, rename_everywhere};
use crate::path::{self, file_name, join};
use crate::sidebar::TreeDrag;
use crate::state::{EditorView, Effect, Task};
use crate::text::{joined, joined3};
use vstd::prelude::*;
use vstd::string::*;

verus! {

/// What a drop in the tree asks for.
pub enum Drop {
    /// Nothing is moved.
    Nothing,
    /// Documents under the item have unsaved changes.
    Unsaved,
    /// Move the item.
    Move { from: String, to: String, folder: String },
}

impl EditorView {
    /// What dropping `drag` leads to. `key` is what the dragged item resolves
    /// to, which is how open documents know it.
    ///
    /// Unsaved work under the item, in the pane with the keyboard, would be
    /// stranded at a path that no longer exists, so it is refused.
    pub fn drop_tree_item(&mut self, drag: &TreeDrag, key: &str, now: u64) -> (drop: Drop)
        requires
            old(self).state.wf(),
        ensures
            final(self).state.wf(),
            !old(self).state.side.open ==> drop is Nothing && *final(self) == *old(self),
            old(self).state.side.open ==> match (
                old(self).state.side.tree.destination(drag.over),
                path::file_name_of(drag.path@),
            ) {
                (Some(folder), Some(name)) => if old(self).state.pane.docs.dirty_under(key@) {
                    &&& drop is Unsaved
                    &&& final(self).state.says(
                        "save the affected tabs before moving this item"@,
                        now,
                    )
                    &&& final(self).shows(
                        *old(self),
                        old(self).state.saying(final(self).state.status.message->0),
                        Seq::empty(),
                        now,
                    )
                } else {
                    &&& *final(self) == *old(self)
                    &&& drop matches Drop::Move { from, to, folder: into } && from == drag.path
                        && to@ == path::join_of(folder, name) && into@ == folder
                },
                _ => drop is Nothing && *final(self) == *old(self),
            },
    {
        if !self.state.side.open {
            return Drop::Nothing;
        }
        let folder = match self.state.side.tree.drop_folder(drag.over) {
            Some(folder) => folder,
            None => {
                return Drop::Nothing;
            },
        };
        let name = match file_name(drag.path.as_str()) {
            Some(name) => name,
            None => {
                return Drop::Nothing;
            },
        };
        if self.state.pane.docs.has_dirty_under(key) {
            self.say("save the affected tabs before moving this item".to_owned(), now);
            self.show(now);
            return Drop::Unsaved;
        }
        let to = join(folder.as_str(), name.as_str());
        Drop::Move { from: drag.path.clone(), to, folder }
    }

    /// This is `before` after an item moved from `key` to `to`: its documents
    /// follow it, the tree is read again, and `note` is said.
    pub open spec fn follows_item(
        &self,
        before: EditorView,
        key: Seq<char>,
        to: Seq<char>,
        note: Seq<char>,
        now: u64,
    ) -> bool {
        &&& self.state.says(note, now)
        &&& before.state.reindexing(self.state.project)
        &&& panes::panes_follow(
            self.state,
            before.state.saying(self.state.status.message->0).with_project(self.state.project),
            key,
            to,
        )
        &&& self.ivars == before.ivars
        &&& self.effects@ == before.effects@ + seq![
            Effect::RefreshIndex(self.state.project.tree_version),
            Effect::RefreshGit,
            Effect::ResumeDisplayLink,
            Effect::SyncTitle,
            Effect::Run(Task::Reparse),
        ]
    }

    /// The item known as `key` has become `to`.
    fn item_moved(&mut self, key: &str, to: &str, note: String, now: u64)
        requires
            old(self).state.wf(),
        ensures
            final(self).state.wf(),
            final(self).follows_item(*old(self), key@, to@, note@, now),
    {
        rename_everywhere(&mut self.state, key, to);
        self.say(note, now);
        self.refresh_project_after_disk_change();
        self.effects.push(Effect::SyncTitle);
        self.effects.push(Effect::Run(Task::Reparse));
        let ghost version = self.state.project.tree_version;
        assert(self.effects@ =~= old(self).effects@ + seq![
            Effect::RefreshIndex(version),
            Effect::RefreshGit,
            Effect::ResumeDisplayLink,
            Effect::SyncTitle,
            Effect::Run(Task::Reparse),
        ]);
    }

    /// This is `before` after an item was renamed to `to`: its open tabs follow
    /// it.
    pub open spec fn renames_item(
        &self,
        before: EditorView,
        key: Seq<char>,
        to: Seq<char>,
        result: Result<(), String>,
        now: u64,
    ) -> bool {
        match result {
            Ok(_) => self.follows_item(before, key, to, "renamed to "@ + to, now),
            Err(error) => self.only_says(before, "rename failed: "@ + error@, now),
        }
    }

    /// How renaming an item went.
    pub fn rename_item(&mut self, key: &str, to: &str, result: &Result<(), String>, now: u64)
        requires
            old(self).state.wf(),
        ensures
            final(self).state.wf(),
            final(self).renames_item(*old(self), key@, to@, *result, now),
    {
        match result {
            Ok(_) => {
                self.item_moved(key, to, joined("renamed to ", to), now);
            },
            Err(error) => {
                self.say(joined("rename failed: ", error.as_str()), now);
                assert(self.effects@ =~= old(self).effects@ + Seq::<Effect>::empty());
            },
        }
    }

    /// How moving a dropped item went.
    pub fn item_dropped(
        &mut self,
        key: &str,
        to: &str,
        name: &str,
        folder: &str,
        result: &Result<(), String>,
        now: u64,
    )
        requires
            old(self).state.wf(),
        ensures
            final(self).state.wf(),
            match result {
                Ok(_) => exists|moved: EditorView|
                    {
                        &&& #[trigger] moved.follows_item(
                            *old(self),
                            key@,
                            to@,
                            "moved "@ + name@ + " to "@ + folder@,
                            now,
                        )
                        &&& final(self).shows(moved, moved.state, Seq::empty(), now)
                    },
                Err(error) => final(self).remarks_at_once(
                    *old(self),
                    "move failed: "@ + error@,
                    now,
                ),
            },
    {
        match result {
            Ok(_) => {
                let mut note: String = joined3("moved ", name, " to ");
                note.append(folder);
                self.item_moved(key, to, note, now);
                let ghost moved = *self;
                assert(moved.follows_item(
                    *old(self),
                    key@,
                    to@,
                    "moved "@ + name@ + " to "@ + folder@,
                    now,
                ));
                self.show(now);
            },
            Err(error) => {
                self.remark_at_once(joined("move failed: ", error.as_str()), now);
            },
        }
    }

    /// This is `before` with `note` said and shown.
    pub open spec fn remarks_at_once(&self, before: EditorView, note: Seq<char>, now: u64) -> bool {
        &&& self.state.says(note, now)
        &&& self.shows(
            before,
            before.state.saying(self.state.status.message->0),
            Seq::empty(),
            now,
        )
    }

    /// Says something and shows it.
    fn remark_at_once(&mut self, note: String, now: u64)
        ensures
            old(self).state.wf() ==> final(self).state.wf(),
            final(self).remarks_at_once(*old(self), note@, now),
    {
        self.say(note, now);
        self.show(now);
    }
}

/// How making the file that was named in the tree went.
pub enum NewFile {
    /// Something is there already.
    Exists,
    /// It could not be written.
    Failed(String),
    /// It was, and what was read back, if it could be.
    Made(Option<Buffer>),
}

/// How making the folder that was named in the tree went.
pub enum NewFolder {
    /// Something is there already.
    Exists,
    Failed(String),
    Made,
}

impl EditorView {
    /// The file `name` was to be made at `target`, which the file system knows
    /// as `key`: it gets a tab, or it is said why there is none.
    pub fn file_made(&mut self, name: &str, target: &str, key: &str, made: NewFile, now: u64)
        requires
            old(self).state.wf(),
            made matches NewFile::Made(Some(buffer)) ==> buffer.wf(),
        ensures
            final(self).state.wf(),
            match made {
                NewFile::Exists => final(self).remarks_at_once(
                    *old(self),
                    name@ + " already exists"@,
                    now,
                ),
                NewFile::Failed(error) => final(self).remarks_at_once(
                    *old(self),
                    "could not create: "@ + error@,
                    now,
                ),
                NewFile::Made(opened) => exists|open: EditorView|
                    {
                        &&& #[trigger] open.opens_created(*old(self), target@, key@, opened, now)
                        &&& final(self).shows(open, open.state, Seq::empty(), now)
                    },
            },
    {
        match made {
            NewFile::Exists => {
                self.remark_at_once(joined(name, " already exists"), now);
            },
            NewFile::Failed(error) => {
                self.remark_at_once(joined("could not create: ", error.as_str()), now);
            },
            NewFile::Made(opened) => {
                self.open_created_file(target, key, opened, now);
                let ghost open = *self;
                assert(open.opens_created(*old(self), target@, key@, opened, now));
                self.show(now);
            },
        }
    }

    /// The folder `name` was to be made: the tree is read again, or it is said
    /// why there is none.
    pub fn folder_made(&mut self, name: &str, made: NewFolder, now: u64)
        requires
            old(self).state.wf(),
        ensures
            final(self).state.wf(),
            match made {
                NewFolder::Exists => final(self).remarks_at_once(
                    *old(self),
                    "could not create folder: already exists"@,
                    now,
                ),
                NewFolder::Failed(error) => final(self).remarks_at_once(
                    *old(self),
                    "could not create folder: "@ + error@,
                    now,
                ),
                NewFolder::Made => exists|told: EditorView, reread: EditorView|
                    {
                        &&& #[trigger] told.only_says(*old(self), "created folder "@ + name@, now)
                        &&& #[trigger] reread.rereads(told)
                        &&& final(self).shows(reread, reread.state, Seq::empty(), now)
                    },
            },
    {
        match made {
            NewFolder::Exists => {
                self.remark_at_once("could not create folder: already exists".to_owned(), now);
            },
            NewFolder::Failed(error) => {
                self.remark_at_once(joined("could not create folder: ", error.as_str()), now);
            },
            NewFolder::Made => {
                self.say(joined("created folder ", name), now);
                let ghost told = *self;
                assert(told.effects@ =~= old(self).effects@ + Seq::<Effect>::empty());
                assert(told.only_says(*old(self), "created folder "@ + name@, now));
                self.refresh_project_after_disk_change();
                let ghost reread = *self;
                assert(reread.rereads(told));
                self.show(now);
            },
        }
    }

    /// How the rename that was typed into the tree went.
    pub fn item_renamed(&mut self, key: &str, to: &str, result: &Result<(), String>, now: u64)
        requires
            old(self).state.wf(),
        ensures
            final(self).state.wf(),
            exists|renamed: EditorView|
                {
                    &&& #[trigger] renamed.renames_item(*old(self), key@, to@, *result, now)
                    &&& final(self).shows(renamed, renamed.state, Seq::empty(), now)
                },
    {
        self.rename_item(key, to, result, now);
        let ghost renamed = *self;
        assert(renamed.renames_item(*old(self), key@, to@, *result, now));
        self.show(now);
    }
}

} // verus!
