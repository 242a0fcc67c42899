//! The project: its folder, its index, what changes on disk, and moving
//! things in the tree.

use crate::buffer::Buffer;
use crate::path::{self, path_eq, valid_drop};
use crate::sidebar::{SidebarEditKind, Tree, TreeDrag, TreeEntry};
use crate::state::{EditorView, Effect, Gutter, Note, Project, Quit, Servers, Side, State, Task};
use std::collections::HashMap;
use vstd::prelude::*;
use vstd::string::*;

verus! {

/// How long the watcher has to be quiet before its report is acted on, in
/// milliseconds.
pub const SETTLE: u64 = 300;

/// How far a press has to travel to be a drag, in hundredths of a point.
pub const DRAG_THRESHOLD: i32 = 400;

/// The next of a count that goes round.
pub open spec fn next_count(n: u64) -> u64 {
    if n < u64::MAX {
        (n + 1) as u64
    } else {
        0
    }
}

/// See [`next_count`].
pub fn after_count(n: u64) -> (m: u64)
    ensures
        m == next_count(n),
{
    if n < u64::MAX {
        n + 1
    } else {
        0
    }
}

/// The folders of `recent` that are not `root`, by what they resolve to.
pub open spec fn others(
    recent: Seq<String>,
    resolved: Seq<String>,
    root: Seq<char>,
) -> Seq<String>
    decreases recent.len(),
{
    if recent.len() == 0 {
        Seq::empty()
    } else {
        let head = others(recent.drop_last(), resolved, root);
        if path::same_path(resolved[recent.len() - 1]@, root) {
            head
        } else {
            head.push(recent.last())
        }
    }
}

/// The recent folders once `root` has been opened.
pub open spec fn recent_with(
    recent: Seq<String>,
    resolved: Seq<String>,
    root: Option<String>,
) -> Seq<String> {
    match root {
        Some(root) => seq![root] + others(recent, resolved, root@),
        None => recent,
    }
}

/// Puts `root` first among the recent folders, once, and keeps `limit` of
/// them. `resolved` is what each recent folder resolves to.
pub fn with_recent(
    recent: Vec<String>,
    resolved: &Vec<String>,
    root: Option<String>,
    limit: usize,
) -> (list: Vec<String>)
    requires
        resolved@.len() == recent@.len(),
    ensures
        ({
            let all = recent_with(recent@, resolved@, root);
            list@ == (if limit < all.len() {
                all.take(limit as int)
            } else {
                all
            })
        }),
{
    let ghost all = recent_with(recent@, resolved@, root);
    let mut list: Vec<String> = match root {
        None => recent,
        Some(root) => {
            let mut list: Vec<String> = Vec::new();
            list.push(root.clone());
            assert(list@ =~= seq![root] + Seq::<String>::empty());
            let mut i: usize = 0;
            assert(recent@.take(0) =~= Seq::empty());
            while i < recent.len()
                invariant
                    i <= recent@.len() == resolved@.len(),
                    list@ == seq![root] + others(recent@.take(i as int), resolved@, root@),
                decreases recent@.len() - i,
            {
                assert(recent@.take(i + 1).drop_last() =~= recent@.take(i as int));
                let ghost head = others(recent@.take(i as int), resolved@, root@);
                if !path_eq(resolved[i].as_str(), root.as_str()) {
                    list.push(recent[i].clone());
                    assert(list@ =~= seq![root] + head.push(recent@[i as int]));
                }
                i += 1;
            }
            assert(recent@.take(recent@.len() as int) =~= recent@);
            list
        },
    };
    assert(list@ =~= all);
    list.truncate(limit);
    assert(limit <= all.len() ==> list@ =~= all.take(limit as int));
    list
}

/// The folder just opened comes first and nothing else resolves to it.
pub proof fn the_opened_folder_comes_first(
    recent: Seq<String>,
    resolved: Seq<String>,
    root: String,
    i: int,
)
    requires
        recent.len() <= resolved.len(),
        0 < i < recent_with(recent, resolved, Some(root)).len(),
    ensures
        recent_with(recent, resolved, Some(root))[0] == root,
        exists|k: int|
            0 <= k < recent.len() && recent[k] == recent_with(recent, resolved, Some(root))[i]
                && !path::same_path((#[trigger] resolved[k])@, root@),
    decreases recent.len(),
{
    others_are_others(recent, resolved, root@, i - 1);
}

proof fn others_are_others(recent: Seq<String>, resolved: Seq<String>, root: Seq<char>, i: int)
    requires
        recent.len() <= resolved.len(),
        0 <= i < others(recent, resolved, root).len(),
    ensures
        exists|k: int|
            0 <= k < recent.len() && recent[k] == others(recent, resolved, root)[i]
                && !path::same_path((#[trigger] resolved[k])@, root),
    decreases recent.len(),
{
    let head = others(recent.drop_last(), resolved, root);
    if i < head.len() {
        others_are_others(recent.drop_last(), resolved, root, i);
        let k = choose|k: int|
            0 <= k < recent.len() - 1 && recent.drop_last()[k] == head[i] && !path::same_path(
                (#[trigger] resolved[k])@,
                root,
            );
        assert(recent[k] == head[i]);
    } else {
        assert(!path::same_path(resolved[recent.len() - 1]@, root));
    }
}

impl State {
    /// The state with other facts about the project.
    pub open spec fn with_project(self, project: Project) -> State {
        State { project, ..self }
    }

    /// The state with the tree about to be read again: whatever was being
    /// read is for a tree that is gone.
    pub open spec fn reindexing(self, project: Project) -> bool {
        &&& project.reading@.len() == 0
        &&& project == (Project {
            tree_version: next_count(self.project.tree_version),
            indexing: true,
            reading: project.reading,
            ..self.project
        })
    }
}

/// What the watcher saw.
#[derive(Clone, Copy, PartialEq, Eq, Structural, Debug)]
pub enum Change {
    Tree,
    Git,
}

impl EditorView {
    /// This is `before` with the tree about to be read again.
    pub open spec fn rereads(&self, before: EditorView) -> bool {
        &&& before.state.reindexing(self.state.project)
        &&& self.becomes(
            before,
            before.state.with_project(self.state.project),
            seq![
                Effect::RefreshIndex(self.state.project.tree_version),
                Effect::RefreshGit,
                Effect::ResumeDisplayLink,
            ],
        )
    }

    /// The project changed on disk: its tree and index are read again.
    pub fn refresh_project_after_disk_change(&mut self)
        ensures
            final(self).rereads(*old(self)),
            old(self).state.wf() ==> final(self).state.wf(),
    {
        self.state.project.tree_version = after_count(self.state.project.tree_version);
        self.state.project.reading.clear();
        self.state.project.indexing = true;
        self.effects.push(Effect::RefreshIndex(self.state.project.tree_version));
        self.effects.push(Effect::RefreshGit);
        self.effects.push(Effect::ResumeDisplayLink);
        assert(self.effects@ =~= old(self).effects@ + seq![
            Effect::RefreshIndex(self.state.project.tree_version),
            Effect::RefreshGit,
            Effect::ResumeDisplayLink,
        ]);
    }

    /// Re-reads the tree from disk.
    pub fn refresh_tree(&mut self)
        ensures
            final(self).rereads(*old(self)),
            old(self).state.wf() ==> final(self).state.wf(),
    {
        self.refresh_project_after_disk_change();
    }

    /// New File: a name field in the tree when a project is open, the save
    /// panel when there is no tree to put one in.
    pub fn new_file(&mut self, visible: Option<usize>, now: u64)
        requires
            old(self).state.wf(),
            forall|i: int|
                0 <= i < old(self).state.side.tree.rows@.len() ==> (
                #[trigger] old(self).state.side.tree.rows@[i]).depth < usize::MAX,
        ensures
            final(self).state.wf(),
            old(self).state.side.tree.root is Some ==> final(self).starts_edit(
                *old(self),
                SidebarEditKind::NewFile,
                visible,
                now,
            ),
            old(self).state.side.tree.root is None ==> final(self).becomes(
                *old(self),
                old(self).state,
                seq![Effect::NewFilePanel],
            ),
    {
        if self.state.side.tree.root.is_some() {
            self.start_sidebar_edit(SidebarEditKind::NewFile, visible, now);
        } else {
            self.ask(Effect::NewFilePanel);
        }
    }

    /// New Folder, when a project is open. Returns whether one is.
    pub fn new_folder(&mut self, visible: Option<usize>, now: u64) -> (done: bool)
        requires
            old(self).state.wf(),
            forall|i: int|
                0 <= i < old(self).state.side.tree.rows@.len() ==> (
                #[trigger] old(self).state.side.tree.rows@[i]).depth < usize::MAX,
        ensures
            final(self).state.wf(),
            done == old(self).state.side.tree.root is Some,
            done ==> final(self).starts_edit(
                *old(self),
                SidebarEditKind::NewFolder,
                visible,
                now,
            ),
            !done ==> *final(self) == *old(self),
    {
        if self.state.side.tree.root.is_none() {
            return false;
        }
        self.start_sidebar_edit(SidebarEditKind::NewFolder, visible, now);
        true
    }

    /// Closes every expanded directory in the tree.
    pub fn collapse_tree(&mut self, now: u64)
        ensures
            final(self).shows(
                *old(self),
                old(self).state,
                seq![Effect::CollapseTree, Effect::InvalidateCursorRects],
                now,
            ),
            old(self).state.wf() ==> final(self).state.wf(),
    {
        self.effects.push(Effect::CollapseTree);
        self.invalidate_tab_cursors();
        let ghost done = seq![Effect::CollapseTree, Effect::InvalidateCursorRects];
        assert(self.effects@ =~= old(self).effects@ + done);
        self.show(now);
        assert(self.effects@ =~= old(self).effects@ + (done + old(self).pumping(now)));
    }

    /// The close button appears and disappears with hover, so its pointer
    /// rectangle has to be rebuilt when it does.
    pub fn invalidate_tab_cursors(&mut self)
        ensures
            final(self).becomes(*old(self), old(self).state, seq![Effect::InvalidateCursorRects]),
    {
        self.ask(Effect::InvalidateCursorRects);
    }

    /// Something outside the editor touched the project. `settled` is whether
    /// the panel's own work ended a moment ago: its operations change the
    /// repository too, and those it already re-read.
    pub fn project_changed(&mut self, change: Change, settled: bool, now: u64)
        ensures
            old(self).state.wf() ==> final(self).state.wf(),
            ({
                let project = old(self).state.project;
                let git = old(self).state.git;
                final(self).becomes(
                    *old(self),
                    old(self).state.with_project(
                        match change {
                            Change::Tree => Project { changed_at: Some(now), ..project },
                            Change::Git => if git.open && !git.busy && !settled {
                                Project { git_changed_at: Some(now), ..project }
                            } else {
                                project
                            },
                        },
                    ),
                    seq![Effect::ResumeDisplayLink],
                )
            }),
    {
        match change {
            Change::Tree => {
                self.state.project.changed_at = Some(now);
            },
            Change::Git => {
                if self.state.git.open && !self.state.git.busy && !settled {
                    self.state.project.git_changed_at = Some(now);
                }
            },
        }
        self.ask(Effect::ResumeDisplayLink);
    }

    /// Takes in a finished index of `root`, built for tree version `version`;
    /// `None` when the worker ended without one.
    ///
    /// An index for another root is dropped. One for an older tree keeps its
    /// files and is built again; one for this tree is taken whole, with the
    /// file in front revealed. It was built with the ignored set from when the
    /// worker started, so it keeps the newer one, and Git is asked again what it
    /// ignores, since whatever changed the tree may have changed that.
    pub fn poll_project_index(&mut self, answer: Option<(String, u64)>)
        requires
            old(self).state.wf(),
        ensures
            final(self).state.wf(),
            !old(self).state.project.indexing ==> *final(self) == *old(self),
            old(self).state.project.indexing ==> {
                let project = old(self).state.project;
                match answer {
                    None => final(self).becomes(
                        *old(self),
                        old(self).state.with_project(Project { indexing: false, ..project }),
                        Seq::empty(),
                    ),
                    Some((root, version)) => if !is_root(old(self).state, root@) {
                        final(self).becomes(
                            *old(self),
                            old(self).state.with_project(Project { indexing: false, ..project }),
                            Seq::empty(),
                        )
                    } else if project.tree_version != version {
                        final(self).becomes(
                            *old(self),
                            old(self).state,
                            seq![Effect::TakeFinder, Effect::RefreshIndex(project.tree_version)],
                        )
                    } else {
                        final(self).marks(
                            *old(self),
                            old(self).state.with_project(
                                Project {
                                    indexing: false,
                                    tree_version: next_count(version),
                                    reading_ignored: true,
                                    ..project
                                },
                            ),
                            index_work(old(self).state.pane.docs.front(), root),
                        )
                    },
                }
            },
    {
        if !self.state.project.indexing {
            return;
        }
        let (root, version) = match answer {
            None => {
                self.state.project.indexing = false;
                assert(self.effects@ =~= old(self).effects@ + Seq::<Effect>::empty());
                return;
            },
            Some(answer) => answer,
        };
        let here = match &self.state.side.tree.root {
            Some(current) => path_eq(current.as_str(), root.as_str()),
            None => false,
        };
        if !here {
            self.state.project.indexing = false;
            assert(self.effects@ =~= old(self).effects@ + Seq::<Effect>::empty());
            return;
        }
        if self.state.project.tree_version != version {
            self.effects.push(Effect::TakeFinder);
            self.effects.push(Effect::RefreshIndex(self.state.project.tree_version));
            assert(self.effects@ =~= old(self).effects@ + seq![
                Effect::TakeFinder,
                Effect::RefreshIndex(old(self).state.project.tree_version),
            ]);
            return;
        }
        self.state.project.indexing = false;
        self.state.project.tree_version = after_count(version);
        self.state.project.reading_ignored = true;
        let ghost done = index_work(self.state.pane.docs.front(), root);
        self.effects.push(Effect::KeepIgnored);
        self.effects.push(Effect::TakeIndex);
        if let Some(place) = &self.state.pane.docs.active().path {
            self.effects.push(Effect::RevealInTree(place.clone()));
        }
        self.effects.push(Effect::ReadIgnored(root));
        self.effects.push(Effect::ResumeDisplayLink);
        assert(self.effects@ =~= old(self).effects@ + done);
        self.request_redraw();
    }

    /// Takes Git's answer about ignored paths, if it is for this root; `None`
    /// when the worker ended without one.
    pub fn poll_ignored(&mut self, answer: Option<&str>)
        ensures
            old(self).state.wf() ==> final(self).state.wf(),
            !old(self).state.project.reading_ignored ==> *final(self) == *old(self),
            old(self).state.project.reading_ignored ==> {
                let state = old(self).state.with_project(
                    Project { reading_ignored: false, ..old(self).state.project },
                );
                if answer matches Some(root) && is_root(old(self).state, root@) {
                    final(self).marks(*old(self), state, seq![Effect::TakeIgnored])
                } else {
                    final(self).becomes(*old(self), state, Seq::empty())
                }
            },
    {
        if !self.state.project.reading_ignored {
            return;
        }
        self.state.project.reading_ignored = false;
        let here = match (answer, &self.state.side.tree.root) {
            (Some(root), Some(current)) => path_eq(current.as_str(), root),
            _ => false,
        };
        if here {
            self.effects.push(Effect::TakeIgnored);
            assert(self.effects@ =~= old(self).effects@ + seq![Effect::TakeIgnored]);
            self.request_redraw();
            assert(self.effects@ =~= old(self).effects@ + seq![Effect::TakeIgnored]);
        } else {
            assert(self.effects@ =~= old(self).effects@ + Seq::<Effect>::empty());
        }
    }
}

/// Whether `place` is the project's root.
pub open spec fn is_root(state: State, place: Seq<char>) -> bool {
    state.side.tree.root matches Some(root) && path::same_path(root@, place)
}

/// Where the first of `paths` that is `place` stands.
pub open spec fn path_index(paths: Seq<String>, place: Seq<char>) -> Option<int>
    decreases paths.len(),
{
    if paths.len() == 0 {
        None
    } else {
        match path_index(paths.drop_last(), place) {
            Some(i) => Some(i),
            None => if path::same_path(paths.last()@, place) {
                Some(paths.len() - 1)
            } else {
                None
            },
        }
    }
}

/// See [`path_index`].
pub fn find_path(paths: &Vec<String>, place: &str) -> (at: Option<usize>)
    ensures
        match (at, path_index(paths@, place@)) {
            (Some(i), Some(j)) => i == j && i < paths@.len(),
            (None, None) => true,
            _ => false,
        },
{
    let mut found: Option<usize> = None;
    let mut i: usize = 0;
    assert(paths@.take(0) =~= Seq::empty());
    while i < paths.len()
        invariant
            i <= paths@.len(),
            match (found, path_index(paths@.take(i as int), place@)) {
                (Some(a), Some(b)) => a == b && a < i,
                (None, None) => true,
                _ => false,
            },
        decreases paths@.len() - i,
    {
        assert(paths@.take(i + 1).drop_last() =~= paths@.take(i as int));
        if found.is_none() && path_eq(paths[i].as_str(), place) {
            found = Some(i);
        }
        i += 1;
    }
    assert(paths@.take(paths@.len() as int) =~= paths@);
    found
}

/// The contents of a folder, read for the tree at `root`.
pub struct FolderAnswer {
    pub root: String,
    pub path: String,
    /// The tree still has a closed row for the folder.
    pub fits: bool,
}

/// What taking in folder contents leaves to be read, what it installs, and how
/// often the tree changed.
pub struct Taken {
    pub reading: Seq<String>,
    pub installed: Seq<Effect>,
    pub version: u64,
}

/// What taking an index of `root` asks for, with `front` in front.
pub open spec fn index_work(front: Buffer, root: String) -> Seq<Effect> {
    seq![Effect::KeepIgnored, Effect::TakeIndex] + (match front.path {
        Some(place) => seq![Effect::RevealInTree(place)],
        None => Seq::empty(),
    }) + seq![Effect::ReadIgnored(root), Effect::ResumeDisplayLink]
}

/// What `answers` do, one after another. One for another root, or for a folder
/// nobody waits for any more, is dropped.
pub open spec fn taking(
    state: State,
    answers: Seq<FolderAnswer>,
) -> Taken
    decreases answers.len(),
{
    if answers.len() == 0 {
        Taken {
            reading: state.project.reading@,
            installed: Seq::empty(),
            version: state.project.tree_version,
        }
    } else {
        let before = taking(state, answers.drop_last());
        let answer = answers.last();
        match path_index(before.reading, answer.path@) {
            Some(i) => if is_root(state, answer.root@) {
                let reading = before.reading.remove(i);
                if answer.fits {
                    Taken {
                        reading,
                        installed: before.installed.push(Effect::InstallChildren(answer.path)),
                        version: next_count(before.version),
                    }
                } else {
                    Taken { reading, ..before }
                }
            } else {
                before
            },
            None => before,
        }
    }
}

/// Whether `after` is `before` with row `row` of the tree acted on: a folder
/// that opens is read, and one that was being read no longer is.
pub open spec fn reads_row(after: Project, before: Project, row: TreeEntry) -> bool {
    &&& after == (Project {
        reading: after.reading,
        tree_version: next_count(before.tree_version),
        ..before
    })
    &&& after.reading@ == (if row.is_dir && !row.expanded {
        match path_index(before.reading@, row.path@) {
            Some(i) => before.reading@.remove(i),
            None => before.reading@.push(row.path),
        }
    } else {
        before.reading@
    })
}

/// What acting on row `at` of the tree asks for.
pub open spec fn row_work(s: State, at: usize, row: TreeEntry) -> Seq<Effect> {
    if !row.is_dir {
        seq![Effect::LoadPath(row.path), Effect::SyncTitle, Effect::Run(Task::Reparse)]
    } else if row.expanded {
        seq![Effect::ToggleRow(at), Effect::ResumeDisplayLink]
    } else if path_index(s.project.reading@, row.path@) is None {
        seq![
            Effect::ReadChildren(row.path, (row.depth + 1) as usize),
            Effect::ResumeDisplayLink,
        ]
    } else {
        seq![Effect::ResumeDisplayLink]
    }
}

impl State {
    /// The state with row `at` of the tree selected, and the keyboard in the
    /// tree if `keys`.
    pub open spec fn on_row(self, at: usize, keys: bool) -> State {
        State {
            side: Side { tree: Tree { selected: Some(at), ..self.side.tree }, keys, ..self.side },
            ..self
        }
    }
}

impl EditorView {
    /// Takes in folder contents as they arrive.
    pub fn poll_tree_children(&mut self, answers: &Vec<FolderAnswer>)
        ensures
            old(self).state.wf() ==> final(self).state.wf(),
            ({
                let taken = taking(old(self).state, answers@);
                let state = old(self).state.with_project(final(self).state.project);
                &&& final(self).state.project.reading@ == taken.reading
                &&& final(self).state.project == (Project {
                    reading: final(self).state.project.reading,
                    tree_version: taken.version,
                    ..old(self).state.project
                })
                &&& if taken.installed.len() > 0 {
                    final(self).marks(*old(self), state, taken.installed)
                } else {
                    final(self).becomes(*old(self), state, Seq::empty())
                }
            }),
    {
        let ghost before = *self;
        let mut changed = false;
        let mut i: usize = 0;
        assert(answers@.take(0) =~= Seq::empty());
        assert(self.effects@ =~= old(self).effects@ + Seq::<Effect>::empty());
        while i < answers.len()
            invariant
                i <= answers@.len(),
                before == *old(self),
                self.ivars == before.ivars,
                self.state == before.state.with_project(self.state.project),
                self.state.project == (Project {
                    reading: self.state.project.reading,
                    tree_version: self.state.project.tree_version,
                    ..before.state.project
                }),
                self.state.project.reading@ == taking(before.state, answers@.take(i as int)).reading,
                self.state.project.tree_version == taking(
                    before.state,
                    answers@.take(i as int),
                ).version,
                self.effects@ == before.effects@ + taking(
                    before.state,
                    answers@.take(i as int),
                ).installed,
                changed == (taking(before.state, answers@.take(i as int)).installed.len() > 0),
            decreases answers@.len() - i,
        {
            assert(answers@.take(i + 1).drop_last() =~= answers@.take(i as int));
            let ghost so_far = taking(before.state, answers@.take(i as int));
            let answer = &answers[i];
            let here = match &self.state.side.tree.root {
                Some(root) => path_eq(root.as_str(), answer.root.as_str()),
                None => false,
            };
            let waiting = find_path(&self.state.project.reading, answer.path.as_str());
            if here {
                if let Some(at) = waiting {
                    let gone = self.state.project.reading.remove(at);
                    if answer.fits {
                        self.state.project.tree_version = after_count(
                            self.state.project.tree_version,
                        );
                        self.effects.push(Effect::InstallChildren(answer.path.clone()));
                        assert(self.effects@ =~= before.effects@ + so_far.installed.push(
                            Effect::InstallChildren(answer.path),
                        ));
                        changed = true;
                    }
                }
            }
            i += 1;
        }
        assert(answers@.take(answers@.len() as int) =~= answers@);
        if changed {
            let ghost done = taking(before.state, answers@).installed;
            self.request_redraw();
            assert(self.effects@ =~= before.effects@ + done);
        } else {
            assert(taking(before.state, answers@).installed =~= Seq::<Effect>::empty());
        }
    }

    /// A click on row `index` of the tree: it is selected, a folder opens or
    /// closes, a file gets a tab.
    ///
    /// A folder keeps the keyboard in the tree; a file opens, and the document
    /// has it. A second click on a folder before its contents arrive cancels
    /// opening it.
    pub fn sidebar_click(&mut self, index: Option<usize>, now: u64)
        requires
            old(self).state.wf(),
            forall|i: int|
                0 <= i < old(self).state.side.tree.rows@.len() ==> (
                #[trigger] old(self).state.side.tree.rows@[i]).depth < usize::MAX,
        ensures
            final(self).state.wf(),
            index is None || index->0 >= old(self).state.side.tree.rows@.len() ==> *final(self)
                == *old(self),
            index is Some && index->0 < old(self).state.side.tree.rows@.len() ==> {
                let at = index->0;
                let row = old(self).state.side.tree.rows@[at as int];
                let project = final(self).state.project;
                &&& reads_row(project, old(self).state.project, row)
                &&& final(self).shows(
                    *old(self),
                    old(self).state.on_row(at, row.is_dir).with_project(project),
                    row_work(old(self).state, at, row),
                    now,
                )
            },
    {
        let at = match index {
            Some(at) => at,
            None => {
                return;
            },
        };
        if at >= self.state.side.tree.rows.len() {
            return;
        }
        let ghost row = old(self).state.side.tree.rows@[at as int];
        let ghost done = row_work(old(self).state, at, row);
        self.act_on_row(at);
        self.state.side.tree.selected = Some(at);
        self.state.side.keys = self.state.side.tree.rows[at].is_dir;
        self.show(now);
        assert(self.effects@ =~= old(self).effects@ + (done + old(self).pumping(now)));
    }

    /// Opens or closes the folder in row `at`, or opens its file.
    fn act_on_row(&mut self, at: usize)
        requires
            at < old(self).state.side.tree.rows@.len(),
            old(self).state.side.tree.rows@[at as int].depth < usize::MAX,
        ensures
            ({
                let row = old(self).state.side.tree.rows@[at as int];
                let project = final(self).state.project;
                &&& reads_row(project, old(self).state.project, row)
                &&& final(self).becomes(
                    *old(self),
                    old(self).state.with_project(project),
                    row_work(old(self).state, at, row),
                )
            }),
    {
        let (place, is_dir, expanded, depth) = {
            let row = &self.state.side.tree.rows[at];
            (row.path.clone(), row.is_dir, row.expanded, row.depth)
        };
        let ghost row = old(self).state.side.tree.rows@[at as int];
        self.state.project.tree_version = after_count(self.state.project.tree_version);
        if !is_dir {
            self.effects.push(Effect::LoadPath(place));
            self.effects.push(Effect::SyncTitle);
            self.effects.push(Effect::Run(Task::Reparse));
        } else {
            if expanded {
                self.effects.push(Effect::ToggleRow(at));
            } else {
                match find_path(&self.state.project.reading, place.as_str()) {
                    None => {
                        self.state.project.reading.push(place.clone());
                        self.effects.push(Effect::ReadChildren(place, depth + 1));
                    },
                    Some(waiting) => {
                        let gone = self.state.project.reading.remove(waiting);
                    },
                }
            }
            self.effects.push(Effect::ResumeDisplayLink);
        }
        assert(self.effects@ =~= old(self).effects@ + row_work(old(self).state, at, row));
    }

    /// Tracks a sidebar drag and works out whether it could be dropped here.
    /// `row` is the row under the pointer, `inside` whether the pointer is over
    /// the sidebar at all.
    ///
    /// A press is not a drag until it has travelled far enough to mean it.
    pub fn tree_drag_moved(
        &mut self,
        x: i32,
        y: i32,
        row: Option<usize>,
        inside: bool,
        now: u64,
    )
        ensures
            old(self).state.wf() ==> final(self).state.wf(),
            match old(self).state.side.drag {
                None => *final(self) == *old(self),
                Some(drag) => {
                    let far = far_from(drag, x, y);
                    let valid = inside && (old(self).state.side.tree.destination(row) matches Some(
                        folder,
                    ) && path::may_drop(drag.path@, folder));
                    let moved = TreeDrag { active: true, over: row, valid, ..drag };
                    let state = old(self).state.with_tree_drag(Some(moved));
                    if !drag.active && !far {
                        *final(self) == *old(self)
                    } else if drag.over != row || drag.valid != valid {
                        final(self).shows(*old(self), state, Seq::empty(), now)
                    } else {
                        final(self).becomes(*old(self), state, Seq::empty())
                    }
                },
            },
    {
        let folder = self.state.side.tree.drop_folder(row);
        let (active, far, same, valid) = match &self.state.side.drag {
            None => {
                return;
            },
            Some(drag) => {
                let valid = inside && match &folder {
                    Some(folder) => valid_drop(drag.path.as_str(), folder.as_str()),
                    None => false,
                };
                (
                    drag.active,
                    travelled(x, drag.origin_x) || travelled(y, drag.origin_y),
                    drag.over == row && drag.valid == valid,
                    valid,
                )
            },
        };
        if !active && !far {
            return;
        }
        if let Some(drag) = &mut self.state.side.drag {
            drag.active = true;
            drag.over = row;
            drag.valid = valid;
        }
        if !same {
            self.show(now);
        } else {
            assert(self.effects@ =~= old(self).effects@ + Seq::<Effect>::empty());
        }
    }

    /// Opens a folder as the project. `resolved` is what the folder and each
    /// recent project resolve to, and `limit` how many are remembered.
    ///
    /// A project is open now, which is worth coming back to, so the session is
    /// no longer a passing one.
    pub fn load_folder_path(
        &mut self,
        path: String,
        canonical: String,
        resolved: &Vec<String>,
        limit: usize,
        now: u64,
    )
        requires
            old(self).state.wf(),
            resolved@.len() == old(self).state.side.recent@.len(),
        ensures
            final(self).state.wf(),
            ({
                let before = old(self).state;
                let after = final(self).state;
                let all = recent_with(before.side.recent@, resolved@, Some(canonical));
                &&& after.side == (Side {
                    tree: Tree { root: Some(path), ..before.side.tree },
                    open: true,
                    recent: after.side.recent,
                    ..before.side
                })
                &&& after.side.recent@ == (if limit < all.len() {
                    all.take(limit as int)
                } else {
                    all
                })
                &&& after.project.reading@.len() == 0
                &&& after.project == (Project {
                    tree_version: 0,
                    indexing: true,
                    reading: after.project.reading,
                    ..before.project
                })
                &&& after.servers.list@.len() == 0
                &&& after.servers.unavailable@.len() == 0
                &&& after.servers == (Servers {
                    list: after.servers.list,
                    unavailable: after.servers.unavailable,
                    ..before.servers
                })
                &&& after.says("Folder opened"@, now)
                &&& final(self).marks(
                    *old(self),
                    State {
                        side: after.side,
                        project: after.project,
                        servers: after.servers,
                        quit: Quit { ephemeral: false, ..before.quit },
                        hints: crate::state::Hints { completion: None, ..before.hints },
                        ..before.saying(after.status.message->0)
                    },
                    seq![
                        Effect::NewGitPanel(path),
                        Effect::StartIndex(path),
                        Effect::WatchProject,
                        Effect::Run(Task::LspSyncOpen),
                    ] + old(self).pumping(now) + seq![Effect::ResumeDisplayLink],
                )
            }),
    {
        let ghost place = path;
        let mut recent: Vec<String> = Vec::new();
        std::mem::swap(&mut self.state.side.recent, &mut recent);
        self.state.side.recent = with_recent(recent, resolved, Some(canonical), limit);
        self.state.side.tree.root = Some(path.clone());
        self.state.side.open = true;
        self.state.project.tree_version = 0;
        self.state.project.reading.clear();
        self.state.project.indexing = true;
        self.state.servers.list.clear();
        self.state.servers.unavailable.clear();
        self.state.quit.ephemeral = false;
        self.state.hints.completion = None;
        self.state.status.message = Some(Note { text: "Folder opened".to_owned(), at: now });
        self.effects.push(Effect::NewGitPanel(path.clone()));
        self.effects.push(Effect::StartIndex(path));
        self.effects.push(Effect::WatchProject);
        self.effects.push(Effect::Run(Task::LspSyncOpen));
        let ghost first = seq![
            Effect::NewGitPanel(place),
            Effect::StartIndex(place),
            Effect::WatchProject,
            Effect::Run(Task::LspSyncOpen),
        ];
        assert(self.effects@ =~= old(self).effects@ + first);
        self.show(now);
        self.effects.push(Effect::ResumeDisplayLink);
        assert(self.effects@ =~= old(self).effects@ + (first + old(self).pumping(now) + seq![
            Effect::ResumeDisplayLink,
        ]));
    }

    /// Rebuilds the tree and finder once the watcher has been quiet for a
    /// moment, and never while a rebuild is already running. `settled` is
    /// whether the panel's own work ended a moment ago.
    pub fn refresh_after_watch(&mut self, settled: bool, now: u64)
        requires
            old(self).state.wf(),
        ensures
            final(self).state.wf(),
            ({
                let before = old(self).state;
                let project = before.project;
                let git_due = quiet_since(project.git_changed_at, now);
                let tree_due = quiet_since(project.changed_at, now) && !project.indexing;
                let after = final(self).state;
                let git_work = if git_due && before.git.open && !before.git.busy && !settled {
                    seq![Effect::RefreshGit]
                } else {
                    Seq::<Effect>::empty()
                };
                &&& git_due ==> after.gutter.rows@ == Map::<u64, crate::state::GutterState>::empty()
                &&& !git_due ==> after.gutter == before.gutter
                &&& after.gutter == (Gutter { rows: after.gutter.rows, ..before.gutter })
                &&& after.project.reading@ == (if tree_due {
                    Seq::<String>::empty()
                } else {
                    project.reading@
                })
                &&& after.project == (Project {
                    git_changed_at: if git_due {
                        None
                    } else {
                        project.git_changed_at
                    },
                    changed_at: if tree_due {
                        None
                    } else {
                        project.changed_at
                    },
                    tree_version: if tree_due {
                        next_count(project.tree_version)
                    } else {
                        project.tree_version
                    },
                    indexing: project.indexing || tree_due,
                    reading: after.project.reading,
                    ..project
                })
                &&& final(self).becomes(
                    *old(self),
                    State { gutter: after.gutter, project: after.project, ..before },
                    git_work + (if tree_due {
                        seq![
                            Effect::PokeIndexer,
                            Effect::RefreshIndex(next_count(project.tree_version)),
                        ] + (if before.git.open {
                            seq![Effect::RefreshGit]
                        } else {
                            Seq::empty()
                        }) + seq![Effect::Run(Task::CheckOpenFiles), Effect::ResumeDisplayLink]
                    } else {
                        Seq::empty()
                    }),
                )
            }),
    {
        let git_due = is_quiet_since(self.state.project.git_changed_at, now);
        if git_due {
            self.state.project.git_changed_at = None;
            self.state.gutter.rows = HashMap::new();
            if self.state.git.open && !self.state.git.busy && !settled {
                self.effects.push(Effect::RefreshGit);
            }
        }
        let ghost git_work = if git_due && self.state.git.open && !self.state.git.busy && !settled {
            seq![Effect::RefreshGit]
        } else {
            Seq::<Effect>::empty()
        };
        assert(self.effects@ =~= old(self).effects@ + git_work);
        let tree_due = is_quiet_since(self.state.project.changed_at, now)
            && !self.state.project.indexing;
        if !tree_due {
            assert(self.effects@ =~= old(self).effects@ + (git_work + Seq::<Effect>::empty()));
            return;
        }
        self.state.project.changed_at = None;
        self.state.project.tree_version = after_count(self.state.project.tree_version);
        self.state.project.reading.clear();
        self.state.project.indexing = true;
        self.effects.push(Effect::PokeIndexer);
        self.effects.push(Effect::RefreshIndex(self.state.project.tree_version));
        if self.state.git.open {
            self.effects.push(Effect::RefreshGit);
        }
        self.effects.push(Effect::Run(Task::CheckOpenFiles));
        self.effects.push(Effect::ResumeDisplayLink);
        let ghost version = self.state.project.tree_version;
        assert(self.effects@ =~= old(self).effects@ + (git_work + (seq![
            Effect::PokeIndexer,
            Effect::RefreshIndex(version),
        ] + (if self.state.git.open {
            seq![Effect::RefreshGit]
        } else {
            Seq::empty()
        }) + seq![Effect::Run(Task::CheckOpenFiles), Effect::ResumeDisplayLink])));
    }
}

/// Whether something reported at `at` has been quiet for long enough.
pub open spec fn quiet_since(at: Option<u64>, now: u64) -> bool {
    at matches Some(at) && now - at >= SETTLE
}

/// See [`quiet_since`].
fn is_quiet_since(at: Option<u64>, now: u64) -> (r: bool)
    ensures
        r == quiet_since(at, now),
{
    match at {
        Some(at) => now >= at && now - at >= SETTLE,
        None => false,
    }
}

/// Whether the pointer has gone further from where a drag began than a click
/// wanders.
pub open spec fn far_from(drag: TreeDrag, x: i32, y: i32) -> bool {
    ||| x - drag.origin_x > DRAG_THRESHOLD
    ||| drag.origin_x - x > DRAG_THRESHOLD
    ||| y - drag.origin_y > DRAG_THRESHOLD
    ||| drag.origin_y - y > DRAG_THRESHOLD
}

/// Whether two coordinates are further apart than a click wanders.
fn travelled(a: i32, b: i32) -> (r: bool)
    ensures
        r == (a - b > DRAG_THRESHOLD || b - a > DRAG_THRESHOLD),
{
    let a: i64 = a as i64;
    let b: i64 = b as i64;
    a - b > DRAG_THRESHOLD as i64 || b - a > DRAG_THRESHOLD as i64
}

impl State {
    /// The state with another tree drag.
    pub open spec fn with_tree_drag(self, drag: Option<TreeDrag>) -> State {
        State { side: Side { drag, ..self.side }, ..self }
    }
}

impl EditorView {
    /// Someone wants a folder opened. Returns whether the panel is to be shown.
    ///
    /// A scripted run never shows it: it opens on the person's real folders,
    /// and keys meant for the editor would pick one and index it.
    pub fn open_folder(&mut self, now: u64) -> (panel: bool)
        requires
            old(self).state.wf(),
        ensures
            final(self).state.wf(),
            panel == !old(self).ivars.testing,
            panel ==> *final(self) == *old(self),
            !panel ==> {
                &&& final(self).state.says("would show the Open Folder panel"@, now)
                &&& final(self).becomes(
                    *old(self),
                    old(self).state.saying(final(self).state.status.message->0),
                    Seq::empty(),
                )
            },
    {
        if self.ivars.testing {
            self.say("would show the Open Folder panel".to_owned(), now);
            assert(self.effects@ =~= old(self).effects@ + Seq::<Effect>::empty());
            return false;
        }
        true
    }
}

} // verus!
