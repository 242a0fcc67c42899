//! The project tree: choosing, naming and moving things in it.

use crate::buffer::Field;
use crate::git::GitPanel;
use crate::keys::{self, EditOp, KeyEvent};
use crate::path::{self, file_name, file_stem, join, parent, path_eq, split_path};
use crate::state::{EditorView, Effect, Fields, Side, State, Target, Task};
use crate::text::{self, joined, same, trim};
use vstd::prelude::*;
use vstd::string::*;

verus! {

/// A visible row of the tree.
pub struct TreeEntry {
    pub path: String,
    pub name: String,
    pub is_dir: bool,
    pub expanded: bool,
    pub depth: usize,
}

/// The project tree behind the sidebar.
pub struct Tree {
    pub root: Option<String>,
    pub rows: Vec<TreeEntry>,
    pub selected: Option<usize>,
    /// The first row shown.
    pub scroll: usize,
}

/// What the inline sidebar field will do with its name when committed.
pub enum SidebarEditKind {
    NewFile,
    NewFolder,
    Rename(String),
}

/// A name being typed into the tree.
pub struct SidebarEdit {
    pub kind: SidebarEditKind,
    /// The folder the name is relative to.
    pub parent: String,
    /// The visible row the field occupies, and its indent.
    pub row: usize,
    pub depth: usize,
    pub field: Field,
}

/// Dragging a file or folder onto another folder to move it.
///
/// Held from the mouse going down on a row, but not acted on until the
/// pointer has travelled far enough to mean it: a drag that starts on every
/// click would make selecting a file impossible.
pub struct TreeDrag {
    pub path: String,
    /// Where the press was, in hundredths of a point.
    pub origin_x: i32,
    pub origin_y: i32,
    /// Past the threshold, so this is a move rather than a click.
    pub active: bool,
    /// The row it would drop onto, or `None` for the project root.
    pub over: Option<usize>,
    /// Whether the pointer is somewhere a drop is allowed at all.
    pub valid: bool,
}

impl Tree {
    /// The selected row is one of the rows.
    pub open spec fn wf(&self) -> bool {
        self.selected matches Some(i) ==> i < self.rows@.len()
    }
}

impl SidebarEdit {
    /// Whether the field stands where an existing row is.
    pub fn replaces(&self) -> (r: bool)
        ensures
            r == self.kind is Rename,
    {
        match self.kind {
            SidebarEditKind::Rename(_) => true,
            _ => false,
        }
    }
}

/// The first row at `place`.
pub open spec fn row_at(rows: Seq<TreeEntry>, place: Seq<char>) -> Option<int>
    decreases rows.len(),
{
    if rows.len() == 0 {
        None
    } else {
        match row_at(rows.drop_last(), place) {
            Some(i) => Some(i),
            None => if path::same_path(rows.last().path@, place) {
                Some(rows.len() - 1)
            } else {
                None
            },
        }
    }
}

/// The first folder row at `place`.
pub open spec fn folder_row_at(rows: Seq<TreeEntry>, place: Seq<char>) -> Option<int>
    decreases rows.len(),
{
    if rows.len() == 0 {
        None
    } else {
        match folder_row_at(rows.drop_last(), place) {
            Some(i) => Some(i),
            None => if rows.last().is_dir && path::same_path(rows.last().path@, place) {
                Some(rows.len() - 1)
            } else {
                None
            },
        }
    }
}

/// See [`row_at`] and [`folder_row_at`].
fn find_row(rows: &Vec<TreeEntry>, place: &str, folder: bool) -> (at: Option<usize>)
    ensures
        match (at, if folder {
            folder_row_at(rows@, place@)
        } else {
            row_at(rows@, place@)
        }) {
            (Some(i), Some(j)) => i == j && i < rows@.len(),
            (None, None) => true,
            _ => false,
        },
{
    let mut found: Option<usize> = None;
    let mut i: usize = 0;
    assert(rows@.take(0) =~= Seq::empty());
    while i < rows.len()
        invariant
            i <= rows@.len(),
            match (found, if folder {
                folder_row_at(rows@.take(i as int), place@)
            } else {
                row_at(rows@.take(i as int), place@)
            }) {
                (Some(a), Some(b)) => a == b && a < i,
                (None, None) => true,
                _ => false,
            },
        decreases rows@.len() - i,
    {
        assert(rows@.take(i + 1).drop_last() =~= rows@.take(i as int));
        if found.is_none() && (!folder || rows[i].is_dir) && path_eq(
            rows[i].path.as_str(),
            place,
        ) {
            found = Some(i);
        }
        i += 1;
    }
    assert(rows@.take(rows@.len() as int) =~= rows@);
    found
}

/// The directory something dropped or created at a row goes to: the folder
/// itself, or the folder of a file.
pub open spec fn folder_of_row(entry: TreeEntry) -> Option<Seq<char>> {
    if entry.is_dir {
        Some(entry.path@)
    } else {
        path::parent_of(entry.path@)
    }
}

/// See [`folder_of_row`].
fn row_folder(entry: &TreeEntry) -> (folder: Option<String>)
    ensures
        match (folder, folder_of_row(*entry)) {
            (Some(a), Some(b)) => a@ == b,
            (None, None) => true,
            _ => false,
        },
{
    if entry.is_dir {
        Some(entry.path.clone())
    } else {
        parent(entry.path.as_str())
    }
}

impl Tree {
    /// The directory a drop on row `over` goes to: the folder under the
    /// pointer, the parent of a file under it, or the project root below the
    /// tree.
    pub open spec fn destination(&self, over: Option<usize>) -> Option<Seq<char>> {
        match over {
            Some(index) => if index < self.rows@.len() {
                folder_of_row(self.rows@[index as int])
            } else {
                self.root_text()
            },
            None => self.root_text(),
        }
    }

    /// The root's path.
    pub open spec fn root_text(&self) -> Option<Seq<char>> {
        match self.root {
            Some(root) => Some(root@),
            None => None,
        }
    }

    /// See [`Tree::destination`].
    pub fn drop_folder(&self, over: Option<usize>) -> (folder: Option<String>)
        ensures
            match (folder, self.destination(over)) {
                (Some(a), Some(b)) => a@ == b,
                (None, None) => true,
                _ => false,
            },
    {
        if let Some(index) = over {
            if index < self.rows.len() {
                return row_folder(&self.rows[index]);
            }
        }
        self.root.clone()
    }

    /// Where something new goes: next to the selection, or at the root.
    pub open spec fn new_item_folder(&self) -> Option<Seq<char>> {
        self.destination(self.selected)
    }

    /// The scroll that brings `row` into a list of `visible` rows.
    pub open spec fn scrolled_to(&self, row: int, visible: int) -> int {
        if row < self.scroll {
            row
        } else if row >= self.scroll + visible {
            row + 1 - visible
        } else {
            self.scroll as int
        }
    }
}

/// What a name field in the tree starts out as.
pub struct EditPlan {
    pub parent: String,
    pub row: usize,
    pub depth: usize,
    pub name: String,
    /// How much of the name is selected, in bytes.
    pub stem: usize,
}

/// Whether `plan` is where and with what a name field for `kind` starts.
pub open spec fn plans_edit(tree: Tree, kind: SidebarEditKind, plan: Option<EditPlan>) -> bool {
    match (kind, tree.root) {
        (_, None) => plan is None,
        (SidebarEditKind::Rename(place), Some(root)) => match row_at(tree.rows@, place@) {
            None => plan is None,
            Some(i) => {
                let entry = tree.rows@[i];
                &&& plan matches Some(plan)
                &&& plan.parent@ == (match path::parent_of(place@) {
                    Some(folder) => folder,
                    None => root@,
                })
                &&& plan.row == i
                &&& plan.depth == entry.depth
                &&& plan.name@ == entry.name@
                &&& plan.stem == vstd::utf8::encode_utf8(
                    if entry.is_dir {
                        entry.name@
                    } else {
                        path::stem_of(entry.name@)
                    },
                ).len() as usize
            },
        },
        (_, Some(root)) => {
            let folder = match tree.new_item_folder() {
                Some(folder) => folder,
                None => root@,
            };
            &&& plan matches Some(plan)
            &&& plan.parent@ == folder
            &&& plan.name@.len() == 0
            &&& plan.stem == 0
            &&& match folder_row_at(tree.rows@, folder) {
                Some(i) => plan.row == i + 1 && plan.depth == tree.rows@[i].depth + 1,
                None => plan.row == 0 && plan.depth == 0,
            }
        },
    }
}

/// Works out where a name field goes and what it holds. The stem of a file's
/// name is selected, as in Finder: typing replaces the name and keeps the
/// extension.
pub fn plan_edit(tree: &Tree, kind: &SidebarEditKind) -> (plan: Option<EditPlan>)
    requires
        forall|i: int|
            0 <= i < tree.rows@.len() ==> (#[trigger] tree.rows@[i]).depth < usize::MAX,
    ensures
        plans_edit(*tree, *kind, plan),
{
    let root: String = match &tree.root {
        None => {
            return None;
        },
        Some(root) => root.clone(),
    };
    match kind {
        SidebarEditKind::Rename(place) => {
            let index = match find_row(&tree.rows, place.as_str(), false) {
                None => {
                    return None;
                },
                Some(index) => index,
            };
            let entry = &tree.rows[index];
            let name = entry.name.clone();
            let stem: usize = if entry.is_dir {
                name.as_str().len()
            } else {
                let stem = file_stem(name.as_str());
                stem.as_str().len()
            };
            let folder = match parent(place.as_str()) {
                Some(folder) => folder,
                None => root,
            };
            Some(EditPlan { parent: folder, row: index, depth: entry.depth, name, stem })
        },
        SidebarEditKind::NewFile | SidebarEditKind::NewFolder => {
            let folder = match tree.drop_folder(tree.selected) {
                Some(folder) => folder,
                None => root,
            };
            let count = tree.rows.len();
            let (row, depth) = match find_row(&tree.rows, folder.as_str(), true) {
                Some(index) => (
                    if index < count {
                        index + 1
                    } else {
                        count
                    },
                    tree.rows[index].depth + 1,
                ),
                None => (0, 0),
            };
            let name: String = String::new();
            Some(EditPlan { parent: folder, row, depth, name, stem: 0 })
        },
    }
}

/// Whether `name` can be created: a path of plain names, below the folder.
pub open spec fn creatable(name: Seq<char>) -> bool {
    &&& !path::is_absolute(name)
    &&& forall|i: int|
        0 <= i < path::components(name).len() ==> {
            &&& #[trigger] path::components(name)[i] != seq!['.']
            &&& path::components(name)[i] != seq!['.', '.']
        }
}

/// See [`creatable`].
fn is_creatable(name: &str) -> (r: bool)
    ensures
        r == creatable(name@),
{
    let chars = text::chars_of(name);
    if chars.len() > 0 && chars[0] == '/' {
        return false;
    }
    let parts = split_path(name);
    proof {
        reveal_strlit(".");
        reveal_strlit("..");
        assert("."@ =~= seq!['.']);
        assert(".."@ =~= seq!['.', '.']);
    }
    let mut i: usize = 0;
    while i < parts.len()
        invariant
            i <= parts@.len(),
            path::texts(parts@) == path::components(name@),
            "."@ == seq!['.'],
            ".."@ == seq!['.', '.'],
            forall|j: int|
                0 <= j < i ==> {
                    &&& #[trigger] path::components(name@)[j] != seq!['.']
                    &&& path::components(name@)[j] != seq!['.', '.']
                },
        decreases parts@.len() - i,
    {
        assert(path::components(name@)[i as int] == parts@[i as int]@);
        if same(parts[i].as_str(), ".") || same(parts[i].as_str(), "..") {
            return false;
        }
        i += 1;
    }
    assert(path::components(name@).len() == parts@.len());
    true
}

/// Whether `name` can be a new name for something: one plain name.
pub open spec fn renamable(name: Seq<char>) -> bool {
    path::file_name_of(name) == Some(name)
}

/// What committing the field asks for.
pub enum SidebarAction {
    Nothing,
    CreateFile { target: String, name: String },
    CreateFolder { target: String, name: String },
    Rename { from: String, to: String },
}

/// Whether `action` is what committing `edit` with the name `name` leads to.
pub open spec fn is_commit(edit: SidebarEdit, name: Seq<char>, action: SidebarAction) -> bool {
    let target = path::join_of(edit.parent@, name);
    match edit.kind {
        SidebarEditKind::NewFile => action matches SidebarAction::CreateFile {
            target: t,
            name: n,
        } && t@ == target && n@ == name,
        SidebarEditKind::NewFolder => action matches SidebarAction::CreateFolder {
            target: t,
            name: n,
        } && t@ == target && n@ == name,
        SidebarEditKind::Rename(place) => if path::file_name_of(place@) is Some
            && path::file_name_of(place@) != Some(name) {
            action matches SidebarAction::Rename { from, to } && from == place && to@ == target
        } else {
            action is Nothing
        },
    }
}

impl State {
    /// The state with another name field in the tree.
    pub open spec fn with_sidebar_edit(self, sidebar_edit: Option<SidebarEdit>) -> State {
        State { fields: Fields { sidebar_edit, ..self.fields }, ..self }
    }

    /// The state ready for a name field: the tree showing, nothing modal over
    /// it.
    pub open spec fn showing_tree(self) -> State {
        State {
            fields: Fields { palette: None, goto_line: None, ..self.fields },
            side: Side { open: true, ..self.side },
            git: if self.git.open {
                GitPanel { open: false, focus: false, showing_diff: false, ..self.git }
            } else {
                self.git
            },
            ..self
        }
    }

    /// The state with its tree scrolled.
    pub open spec fn with_tree_scroll(self, scroll: usize) -> State {
        State { side: Side { tree: Tree { scroll, ..self.side.tree }, ..self.side }, ..self }
    }
}

impl EditorView {
    /// Opens a name field in the sidebar for `kind`, at the row where the item
    /// will appear. `visible` is how many rows the sidebar shows, when it is
    /// showing. Source control shares the column; the field belongs to the
    /// tree.
    pub fn start_sidebar_edit(&mut self, kind: SidebarEditKind, visible: Option<usize>, now: u64)
        requires
            old(self).state.wf(),
            forall|i: int|
                0 <= i < old(self).state.side.tree.rows@.len() ==> (
                #[trigger] old(self).state.side.tree.rows@[i]).depth < usize::MAX,
        ensures
            final(self).state.wf(),
            final(self).starts_edit(*old(self), kind, visible, now),
    {
        let ghost done = old(self).leaving_git(now);
        if self.state.git.open {
            self.set_sidebar_view(false, now);
        }
        self.show_tree();
        assert(self.effects@ =~= old(self).effects@ + done);
        let plan = match plan_edit(&self.state.side.tree, &kind) {
            None => {
                return;
            },
            Some(plan) => plan,
        };
        let ghost ready = old(self).state.showing_tree();
        assert(if old(self).state.git.open {
            self.state == ready.restless()
        } else {
            self.state == ready
        });
        assert(self.pumping(now) == old(self).pumping(now));
        self.place_field(kind, plan, visible, now);
        assert(self.effects@ =~= old(self).effects@ + (done + old(self).pumping(now)));
    }

    /// Puts the name field in its row and scrolls the row into view.
    fn place_field(
        &mut self,
        kind: SidebarEditKind,
        plan: EditPlan,
        visible: Option<usize>,
        now: u64,
    )
        ensures
            final(self).state.fields.sidebar_edit == Some(
                SidebarEdit {
                    kind,
                    parent: plan.parent,
                    row: plan.row,
                    depth: plan.depth,
                    field: Field { text: plan.name, cursor: plan.stem, anchor: 0 },
                },
            ),
            final(self).shows(
                *old(self),
                old(self).state.with_sidebar_edit(
                    final(self).state.fields.sidebar_edit,
                ).with_tree_scroll(
                    match visible {
                        None => old(self).state.side.tree.scroll,
                        Some(rows) => old(self).state.side.tree.scrolled_to(
                            plan.row as int,
                            if rows > 1 {
                                rows as int
                            } else {
                                1
                            },
                        ) as usize,
                    },
                ),
                Seq::empty(),
                now,
            ),
            old(self).state.wf() ==> final(self).state.wf(),
    {
        if let Some(visible) = visible {
            let rows: usize = if visible > 1 {
                visible
            } else {
                1
            };
            if plan.row < self.state.side.tree.scroll {
                self.state.side.tree.scroll = plan.row;
            } else if plan.row - self.state.side.tree.scroll >= rows {
                self.state.side.tree.scroll = plan.row - (rows - 1);
            }
        }
        self.state.fields.sidebar_edit = Some(
            SidebarEdit {
                kind,
                parent: plan.parent,
                row: plan.row,
                depth: plan.depth,
                field: Field { text: plan.name, cursor: plan.stem, anchor: 0 },
            },
        );
        self.show(now);
    }

    /// Shows the sidebar and closes what is modal over it.
    fn show_tree(&mut self)
        requires
            !old(self).state.git.open,
        ensures
            final(self).state == old(self).state.showing_tree(),
            final(self).ivars == old(self).ivars,
            final(self).effects == old(self).effects,
    {
        self.state.side.open = true;
        self.state.fields.palette = None;
        self.state.fields.goto_line = None;
    }

    /// What switching back to the tree asks for, when source control shows.
    pub open spec fn leaving_git(&self, now: u64) -> Seq<Effect> {
        if self.state.git.open {
            crate::git::sidebar_view_work(self.state, false) + self.pumping(now)
        } else {
            Seq::empty()
        }
    }

    /// This is `before` with a name field for `kind` opened, or without one
    /// when there is no place for it.
    pub open spec fn starts_edit(
        &self,
        before: EditorView,
        kind: SidebarEditKind,
        visible: Option<usize>,
        now: u64,
    ) -> bool {
        let ready = before.state.showing_tree();
        let done = before.leaving_git(now);
        if plans_edit(before.state.side.tree, kind, None) {
            if before.state.git.open {
                self.marks(before, ready, done)
            } else {
                self.becomes(before, ready, done)
            }
        } else {
            &&& self.state.fields.sidebar_edit matches Some(edit)
            &&& edit.kind == kind
            &&& edit.field.anchor == 0
            &&& plans_edit(
                before.state.side.tree,
                kind,
                Some(
                    EditPlan {
                        parent: edit.parent,
                        row: edit.row,
                        depth: edit.depth,
                        name: edit.field.text,
                        stem: edit.field.cursor,
                    },
                ),
            )
            &&& self.shows(
                before,
                ready.with_sidebar_edit(self.state.fields.sidebar_edit).with_tree_scroll(
                    match visible {
                        None => ready.side.tree.scroll,
                        Some(rows) => before.state.side.tree.scrolled_to(
                            edit.row as int,
                            if rows > 1 {
                                rows as int
                            } else {
                                1
                            },
                        ) as usize,
                    },
                ),
                done,
                now,
            )
        }
    }

    /// This is `before` after a key in the tree's name field.
    pub open spec fn handles_sidebar_edit_key(
        &self,
        before: EditorView,
        event: KeyEvent,
        handled: bool,
        now: u64,
    ) -> bool {
        let key = sidebar_key(event);
        &&& handled == !(key is Ignored)
        &&& match key {
            SidebarKey::Ignored | SidebarKey::Swallow => *self == before,
            SidebarKey::Text => self.becomes(before, before.state, seq![Effect::Interpret]),
            SidebarKey::Finish(commit) => self.shows(
                before,
                before.state,
                seq![Effect::Run(Task::FinishSidebarEdit(commit))],
                now,
            ),
            SidebarKey::Edit(op) => self.shows(
                before,
                before.state,
                seq![Effect::Edit(Target::SidebarName, op)],
                now,
            ),
        }
    }

    /// Keys while a name is being typed in the tree.
    pub fn handle_sidebar_edit_key(&mut self, event: &KeyEvent, now: u64) -> (handled: bool)
        ensures
            old(self).state.wf() ==> final(self).state.wf(),
            final(self).handles_sidebar_edit_key(*old(self), *event, handled, now),
    {
        match sidebar_key_of(event) {
            SidebarKey::Ignored => {
                return false;
            },
            SidebarKey::Swallow => {},
            SidebarKey::Text => {
                self.ask(Effect::Interpret);
            },
            SidebarKey::Finish(commit) => {
                let ghost done = seq![Effect::Run(Task::FinishSidebarEdit(commit))];
                self.effects.push(Effect::Run(Task::FinishSidebarEdit(commit)));
                assert(self.effects@ =~= old(self).effects@ + done);
                self.show(now);
                assert(self.effects@ =~= old(self).effects@ + (done + old(self).pumping(now)));
            },
            SidebarKey::Edit(op) => {
                let ghost done = seq![Effect::Edit(Target::SidebarName, op)];
                self.effects.push(Effect::Edit(Target::SidebarName, op));
                assert(self.effects@ =~= old(self).effects@ + done);
                self.show(now);
                assert(self.effects@ =~= old(self).effects@ + (done + old(self).pumping(now)));
            },
        }
        true
    }

    /// Ends the inline field. Returns what has to be done on disk: create,
    /// rename, or nothing. What comes of it goes to
    /// [`file_made`](EditorView::file_made),
    /// [`folder_made`](EditorView::folder_made) or
    /// [`item_renamed`](EditorView::item_renamed).
    pub fn finish_sidebar_edit(&mut self, commit: bool, now: u64) -> (action: SidebarAction)
        ensures
            old(self).state.wf() ==> final(self).state.wf(),
            match old(self).state.fields.sidebar_edit {
                None => action is Nothing && *final(self) == *old(self),
                Some(edit) => {
                    let name = text::trimmed(edit.field.text@);
                    let valid = if edit.kind is Rename {
                        renamable(name)
                    } else {
                        creatable(name)
                    };
                    if !commit || name.len() == 0 {
                        &&& action is Nothing
                        &&& final(self).marks(
                            *old(self),
                            old(self).state.with_sidebar_edit(None),
                            Seq::empty(),
                        )
                    } else if !valid {
                        &&& action is Nothing
                        &&& final(self).state.says("not a valid name: "@ + name, now)
                        &&& final(self).marks(
                            *old(self),
                            old(self).state.with_sidebar_edit(None).saying(
                                final(self).state.status.message->0,
                            ),
                            Seq::empty(),
                        )
                    } else {
                        let closed = old(self).state.with_sidebar_edit(None);
                        &&& is_commit(edit, name, action)
                        &&& if action is Nothing {
                            final(self).shows(*old(self), closed, Seq::empty(), now)
                        } else {
                            final(self).becomes(*old(self), closed, Seq::empty())
                        }
                    }
                },
            },
    {
        let edit = match self.state.fields.sidebar_edit.take() {
            None => {
                return SidebarAction::Nothing;
            },
            Some(edit) => edit,
        };
        let name = trim(edit.field.text.as_str());
        if !commit || name.as_str().is_empty() {
            self.request_redraw();
            return SidebarAction::Nothing;
        }
        let valid = match &edit.kind {
            SidebarEditKind::Rename(_) => match file_name(name.as_str()) {
                Some(part) => same(part.as_str(), name.as_str()),
                None => false,
            },
            _ => is_creatable(name.as_str()),
        };
        if !valid {
            self.say(joined("not a valid name: ", name.as_str()), now);
            self.request_redraw();
            return SidebarAction::Nothing;
        }
        let target = join(edit.parent.as_str(), name.as_str());
        assert(self.effects@ =~= old(self).effects@ + Seq::<Effect>::empty());
        match edit.kind {
            SidebarEditKind::NewFile => SidebarAction::CreateFile { target, name },
            SidebarEditKind::NewFolder => SidebarAction::CreateFolder { target, name },
            SidebarEditKind::Rename(place) => {
                let other = match file_name(place.as_str()) {
                    Some(current) => !same(current.as_str(), name.as_str()),
                    None => false,
                };
                if other {
                    SidebarAction::Rename { from: place, to: target }
                } else {
                    self.show(now);
                    SidebarAction::Nothing
                }
            },
        }
    }
}

/// What a key does to a name field in the tree.
#[derive(Clone, Copy, PartialEq, Eq, Structural, Debug)]
pub enum SidebarKey {
    Finish(bool),
    Edit(EditOp),
    Swallow,
    Text,
    /// Cmd-A, Cmd-V and friends arrive through the Edit menu.
    Ignored,
}

/// See [`SidebarKey`].
pub open spec fn sidebar_key(event: KeyEvent) -> SidebarKey {
    let code = keys::plain_code(event.code);
    let motion = keys::motion_with(event.flags);
    if event.flags.command {
        SidebarKey::Ignored
    } else if code == keys::ESCAPE {
        SidebarKey::Finish(false)
    } else if code == keys::RETURN {
        SidebarKey::Finish(true)
    } else if code == keys::TAB || code == keys::UP || code == keys::DOWN {
        SidebarKey::Swallow
    } else if code == keys::DELETE {
        SidebarKey::Edit(
            if event.flags.option {
                EditOp::DeleteWordBackward
            } else {
                EditOp::Backspace
            },
        )
    } else if code == keys::LEFT {
        SidebarKey::Edit(EditOp::Left(motion))
    } else if code == keys::RIGHT {
        SidebarKey::Edit(EditOp::Right(motion))
    } else if code == keys::HOME {
        SidebarKey::Edit(EditOp::LineStart(motion))
    } else if code == keys::END {
        SidebarKey::Edit(EditOp::LineEnd(motion))
    } else {
        SidebarKey::Text
    }
}

/// See [`sidebar_key`].
fn sidebar_key_of(event: &KeyEvent) -> (k: SidebarKey)
    ensures
        k == sidebar_key(*event),
{
    let code = keys::code_of(event);
    let motion = keys::motion_for(event.flags);
    if event.flags.command {
        SidebarKey::Ignored
    } else if code == keys::ESCAPE {
        SidebarKey::Finish(false)
    } else if code == keys::RETURN {
        SidebarKey::Finish(true)
    } else if code == keys::TAB || code == keys::UP || code == keys::DOWN {
        SidebarKey::Swallow
    } else if code == keys::DELETE {
        SidebarKey::Edit(
            if event.flags.option {
                EditOp::DeleteWordBackward
            } else {
                EditOp::Backspace
            },
        )
    } else if code == keys::LEFT {
        SidebarKey::Edit(EditOp::Left(motion))
    } else if code == keys::RIGHT {
        SidebarKey::Edit(EditOp::Right(motion))
    } else if code == keys::HOME {
        SidebarKey::Edit(EditOp::LineStart(motion))
    } else if code == keys::END {
        SidebarKey::Edit(EditOp::LineEnd(motion))
    } else {
        SidebarKey::Text
    }
}

/// A new name never leads out of its folder: it is not absolute and never
/// goes up.
pub proof fn a_new_name_stays_below_its_folder(name: Seq<char>)
    requires
        creatable(name),
    ensures
        !path::is_absolute(name),
        !path::components(name).contains(seq!['.', '.']),
{
    if path::components(name).contains(seq!['.', '.']) {
        let i = path::components(name).index_of(seq!['.', '.']);
        assert(path::components(name)[i] == seq!['.', '.']);
    }
}

} // verus!
