//! Renaming a symbol: the field it is typed into, and the edits that come
//! back.

use crate::ask;
use crate::buffer::{slice_of, Buffer, Edit, Field};
use crate::keys::{self, EditOp, KeyEvent};
use crate::places::FilePlace;
use crate::project_search::{self, name_list, stamp_all};
use crate::servers::{self, find_server, lsp_language};
use crate::state::{EditorView, Effect, Fields, Position, RenameField, State, Target, Task};
use crate::text::{self, decimal, joined, joined3, plural_ending, read, trim};
use vstd::prelude::*;
use vstd::string::*;

verus! {

impl State {
    /// The state with another rename field.
    pub open spec fn with_rename(self, rename: Option<RenameField>) -> State {
        State { fields: Fields { rename, ..self.fields }, ..self }
    }
}

/// What is said when the caret is on nothing.
pub open spec fn nothing_here() -> Seq<char> {
    "nothing to rename here"@
}

impl EditorView {
    /// This is `before` with `note` said.
    pub open spec fn only_says(&self, before: EditorView, note: Seq<char>, now: u64) -> bool {
        &&& self.state.says(note, now)
        &&& self.becomes(
            before,
            before.state.saying(self.state.status.message->0),
            Seq::empty(),
        )
    }

    /// This is `flushed` with the field for the word from `start` to `end`
    /// open, or with it said why not.
    pub open spec fn opens_rename(
        &self,
        flushed: EditorView,
        start: int,
        end: int,
        at: Position,
        now: u64,
    ) -> bool {
        let front = flushed.state.pane.docs.front();
        let name = text::readable(front.text@.subrange(start, end));
        if servers::language_of(front) is None {
            self.only_says(flushed, ask::no_server(), now)
        } else if text::trimmed(name).len() == 0 {
            self.only_says(flushed, nothing_here(), now)
        } else {
            &&& self.state.fields.rename matches Some(rename)
            &&& rename.field.text@ == name
            &&& rename.field.anchor == 0
            &&& rename.field.cursor == vstd::utf8::encode_utf8(name).len()
            &&& rename.path == front.path->0
            &&& rename.at == at
            &&& rename.language == front.language->0
            &&& self.shows(
                flushed,
                flushed.state.with_rename(Some(rename)),
                Seq::empty(),
                now,
            )
        }
    }

    /// F2: the rename field in the status line, holding the current name. The
    /// word at the caret is from `start` to `end`; `at` is where it starts, as
    /// servers count.
    pub fn start_rename(&mut self, start: usize, end: usize, at: Position, now: u64)
        requires
            old(self).state.wf(),
            start <= end <= old(self).state.pane.docs.front().text@.len(),
        ensures
            final(self).state.wf(),
            exists|flushed: EditorView|
                {
                    &&& #[trigger] flushed.flushes(*old(self), 0, now)
                    &&& final(self).opens_rename(flushed, start as int, end as int, at, now)
                },
    {
        self.lsp_flush_now(now);
        let ghost flushed = *self;
        assert(flushed.flushes(*old(self), 0, now));
        let front = self.state.pane.docs.active();
        let (language, place) = match (lsp_language(front), &front.path) {
            (Some(language), Some(place)) => (language, place.clone()),
            _ => {
                self.say("no language server for this file".to_owned(), now);
                assert(self.effects@ =~= flushed.effects@ + Seq::<Effect>::empty());
                return;
            },
        };
        let name = read(&slice_of(&front.text, start, end));
        let bare = trim(name.as_str());
        if text::chars_of(bare.as_str()).len() == 0 {
            self.say("nothing to rename here".to_owned(), now);
            assert(self.effects@ =~= flushed.effects@ + Seq::<Effect>::empty());
            return;
        }
        let field = Field::selected(name.as_str());
        self.state.fields.rename = Some(RenameField { field, path: place, at, language });
        self.show(now);
    }
}

/// Whether the field's name can be sent: it is one, and its server is ready.
pub open spec fn can_send(s: State, rename: RenameField) -> bool {
    &&& text::trimmed(rename.field.text@).len() > 0
    &&& servers::server_at(s.servers.list@, rename.language.server) matches Some(i)
    &&& s.servers.list@[i].ready
}

impl EditorView {
    /// This is `before` with the new `name` sent to the server.
    pub open spec fn sends_rename(
        &self,
        before: EditorView,
        rename: RenameField,
        name: String,
        now: u64,
    ) -> bool {
        &&& self.state.says("renaming to "@ + name@ + "\u{2026}"@, now)
        &&& self.shows(
            before,
            before.state.with_rename(None).saying(self.state.status.message->0),
            seq![Effect::RenameSymbol(rename.path, rename.at, name)],
            now,
        )
    }

    /// This is `before` after Return in the rename field.
    pub open spec fn leaves_rename(
        &self,
        before: EditorView,
        rename: RenameField,
        now: u64,
    ) -> bool {
        if can_send(before.state, rename) {
            exists|name: String|
                {
                    &&& name@ == text::trimmed(rename.field.text@)
                    &&& #[trigger] self.sends_rename(before, rename, name, now)
                }
        } else {
            &&& self.state.says("rename not sent"@, now)
            &&& self.shows(
                before,
                before.state.with_rename(None).saying(self.state.status.message->0),
                Seq::empty(),
                now,
            )
        }
    }

    /// This is `before` after the rename field was offered a key.
    pub open spec fn handles_rename_key(
        &self,
        before: EditorView,
        event: KeyEvent,
        handled: bool,
        now: u64,
    ) -> bool {
        let code = keys::plain_code(event.code);
        let motion = keys::motion_with(event.flags);
        if event.flags.command {
            !handled && *self == before
        } else {
            &&& handled
            &&& if code == keys::ESCAPE {
                self.shows(before, before.state.with_rename(None), Seq::empty(), now)
            } else if code == keys::RETURN {
                match before.state.fields.rename {
                    Some(rename) => self.leaves_rename(before, rename, now),
                    None => *self == before,
                }
            } else if code == keys::DELETE {
                self.shows(
                    before,
                    before.state,
                    seq![Effect::Edit(Target::RenameName, EditOp::Backspace)],
                    now,
                )
            } else if code == keys::LEFT {
                self.shows(
                    before,
                    before.state,
                    seq![Effect::Edit(Target::RenameName, EditOp::Left(motion))],
                    now,
                )
            } else if code == keys::RIGHT {
                self.shows(
                    before,
                    before.state,
                    seq![Effect::Edit(Target::RenameName, EditOp::Right(motion))],
                    now,
                )
            } else {
                self.becomes(before, before.state, seq![Effect::Interpret])
            }
        }
    }

    /// Keys while the rename field is open. Returns whether it took them.
    pub fn handle_rename_key(&mut self, event: &KeyEvent, now: u64) -> (handled: bool)
        requires
            old(self).state.wf(),
        ensures
            final(self).state.wf(),
            final(self).handles_rename_key(*old(self), *event, handled, now),
    {
        if event.flags.command {
            return false;
        }
        let code = keys::code_of(event);
        let motion = keys::motion_for(event.flags);
        if code == keys::ESCAPE {
            self.state.fields.rename = None;
            self.show(now);
        } else if code == keys::RETURN {
            self.leave_rename(now);
        } else if code == keys::DELETE {
            self.edit_rename(EditOp::Backspace, now);
        } else if code == keys::LEFT {
            self.edit_rename(EditOp::Left(motion), now);
        } else if code == keys::RIGHT {
            self.edit_rename(EditOp::Right(motion), now);
        } else {
            self.ask(Effect::Interpret);
        }
        true
    }

    /// Hands an edit of the name to the text engine.
    fn edit_rename(&mut self, op: EditOp, now: u64)
        ensures
            old(self).state.wf() ==> final(self).state.wf(),
            final(self).shows(
                *old(self),
                old(self).state,
                seq![Effect::Edit(Target::RenameName, op)],
                now,
            ),
    {
        self.effects.push(Effect::Edit(Target::RenameName, op));
        let ghost done = seq![Effect::Edit(Target::RenameName, op)];
        assert(self.effects@ =~= old(self).effects@ + done);
        self.show(now);
        assert(self.effects@ =~= old(self).effects@ + (done + old(self).pumping(now)));
    }

    /// Return in the rename field.
    fn leave_rename(&mut self, now: u64)
        requires
            old(self).state.wf(),
        ensures
            final(self).state.wf(),
            match old(self).state.fields.rename {
                Some(rename) => final(self).leaves_rename(*old(self), rename, now),
                None => *final(self) == *old(self),
            },
    {
        let rename = match self.state.fields.rename.take() {
            Some(rename) => rename,
            None => {
                return;
            },
        };
        let ghost field = rename;
        let name = trim(rename.field.text.as_str());
        let ready = match find_server(&self.state.servers.list, rename.language.server) {
            Some(i) => self.state.servers.list[i].ready,
            None => false,
        };
        if ready && text::chars_of(name.as_str()).len() > 0 {
            self.say(joined3("renaming to ", name.as_str(), "\u{2026}"), now);
            let ghost sent = name;
            self.effects.push(Effect::RenameSymbol(rename.path, rename.at, name));
            let ghost done = seq![Effect::RenameSymbol(field.path, field.at, sent)];
            assert(self.effects@ =~= old(self).effects@ + done);
            self.show(now);
            assert(self.effects@ =~= old(self).effects@ + (done + old(self).pumping(now)));
            assert(self.sends_rename(*old(self), field, sent, now));
        } else {
            self.say("rename not sent".to_owned(), now);
            self.show(now);
        }
    }
}

/// The edits a rename makes in one file.
pub struct FileEdits {
    pub place: FilePlace,
    /// There are none.
    pub empty: bool,
    /// The edits as places in the text, when they fit it.
    pub ranges: Option<Vec<Edit>>,
    /// Whether they were made on disk; only asked of a file that is not open.
    pub written: bool,
}

/// What became of one file.
#[derive(Clone, Copy, PartialEq, Eq, Structural, Debug)]
pub enum Renamed {
    Skipped,
    /// Edited in its tab, and left unsaved.
    Open(u64),
    Written,
    Failed,
}

/// Whether the edits of `f` can be made in `b`, and change something.
pub open spec fn edits_fit(f: FileEdits, b: Buffer) -> bool {
    f.ranges matches Some(ranges) && b.taken(ranges@) > 0
}

/// Whether `after` is `before` with file `f` renamed in, which came to `came`.
/// An open document is edited in place; a file that is not open was edited on
/// disk.
pub open spec fn file_renamed(after: State, before: State, f: FileEdits, came: Renamed) -> bool {
    if f.empty {
        came == Renamed::Skipped && after == before
    } else {
        match f.place.document_in(before) {
            Some(b) => if edits_fit(f, b) {
                came == Renamed::Open(b.id) && f.place.edits_in(after, before, f.ranges->0@)
            } else {
                came == Renamed::Failed && after == before
            },
            None => {
                &&& came == (if f.written {
                    Renamed::Written
                } else {
                    Renamed::Failed
                })
                &&& after == before
            },
        }
    }
}

/// Whether file `i` was renamed in between the states before and after it.
pub open spec fn is_rename_step(
    steps: Seq<State>,
    files: Seq<FileEdits>,
    came: Seq<Renamed>,
    i: int,
) -> bool {
    file_renamed(steps[i + 1], steps[i], files[i], came[i])
}

/// Whether `steps` are the states with `files` renamed in, one after the
/// other, which came to `came`.
pub open spec fn rename_steps(
    steps: Seq<State>,
    files: Seq<FileEdits>,
    came: Seq<Renamed>,
) -> bool {
    &&& came.len() == files.len()
    &&& steps.len() == files.len() + 1
    &&& forall|i: int| 0 <= i < files.len() ==> #[trigger] is_rename_step(steps, files, came, i)
}

/// Whether `after` is `before` with all `files` renamed in.
pub open spec fn files_renamed(
    after: State,
    before: State,
    files: Seq<FileEdits>,
    came: Seq<Renamed>,
) -> bool {
    exists|steps: Seq<State>|
        {
            &&& #[trigger] rename_steps(steps, files, came)
            &&& steps[0] == before
            &&& steps.last() == after
        }
}

/// Makes the edits of one file.
fn rename_file(state: &mut State, f: &FileEdits) -> (came: Renamed)
    requires
        old(state).wf(),
    ensures
        final(state).wf(),
        file_renamed(*final(state), *old(state), *f, came),
{
    if f.empty {
        return Renamed::Skipped;
    }
    if f.place.find_document(state).is_none() {
        return if f.written {
            Renamed::Written
        } else {
            Renamed::Failed
        };
    }
    if let Some(ranges) = &f.ranges {
        if let Some((id, n)) = f.place.edit(state, ranges) {
            if n > 0 {
                return Renamed::Open(id);
            }
        }
    }
    Renamed::Failed
}

/// How many of `came` were edited in their tabs.
pub open spec fn count_open(came: Seq<Renamed>) -> nat
    decreases came.len(),
{
    if came.len() == 0 {
        0
    } else {
        count_open(came.drop_last()) + if came.last() is Open {
            1nat
        } else {
            0
        }
    }
}

/// How many of `came` were edited on disk.
pub open spec fn count_written(came: Seq<Renamed>) -> nat
    decreases came.len(),
{
    if came.len() == 0 {
        0
    } else {
        count_written(came.drop_last()) + if came.last() is Written {
            1nat
        } else {
            0
        }
    }
}

/// The files that could not be edited.
pub open spec fn failures(files: Seq<FileEdits>, came: Seq<Renamed>) -> Seq<String>
    decreases files.len(),
{
    if files.len() == 0 {
        Seq::empty()
    } else {
        let head = failures(files.drop_last(), came.drop_last());
        if came.last() is Failed {
            head.push(files.last().place.path)
        } else {
            head
        }
    }
}

/// The documents that were edited in their tabs.
pub open spec fn open_ids_of(came: Seq<Renamed>) -> Seq<u64>
    decreases came.len(),
{
    if came.len() == 0 {
        Seq::empty()
    } else {
        match came.last() {
            Renamed::Open(id) => open_ids_of(came.drop_last()).push(id),
            _ => open_ids_of(came.drop_last()),
        }
    }
}

/// What is said of a rename.
pub open spec fn rename_note(files: Seq<FileEdits>, came: Seq<Renamed>) -> Seq<char> {
    let open = count_open(came);
    let all = open + count_written(came);
    if files.len() == 0 {
        "the server had nothing to rename"@
    } else if failures(files, came).len() == 0 {
        "renamed in "@ + text::decimal_digits(all) + (" file"@ + text::plural(all as int) + (if open
            > 0 {
            ", "@ + text::decimal_digits(open) + " open and unsaved"@
        } else {
            ""@
        }))
    } else {
        "renamed in "@ + text::decimal_digits(all) + (" files; could not edit "@
            + project_search::named(failures(files, came)))
    }
}

/// What renaming in files came to.
struct RenameTally {
    open: usize,
    written: usize,
    failed: Vec<String>,
    touched: Vec<u64>,
}

impl RenameTally {
    /// This sums up `came`.
    spec fn sums_up(&self, files: Seq<FileEdits>, came: Seq<Renamed>) -> bool {
        &&& self.open == count_open(came)
        &&& self.written == count_written(came)
        &&& self.failed@ == failures(files, came)
        &&& self.touched@ == open_ids_of(came)
        &&& self.open + self.written <= files.len()
    }
}

/// Makes the edits of all `files`.
fn rename_files(state: &mut State, files: &Vec<FileEdits>) -> (r: (RenameTally, Ghost<
    Seq<Renamed>,
>))
    requires
        old(state).wf(),
    ensures
        final(state).wf(),
        files_renamed(*final(state), *old(state), files@, r.1@),
        r.0.sums_up(files@, r.1@),
{
    let mut tally = RenameTally { open: 0, written: 0, failed: Vec::new(), touched: Vec::new() };
    let ghost mut came = Seq::<Renamed>::empty();
    let ghost mut steps = seq![*old(state)];
    let mut i: usize = 0;
    assert(files@.take(0) =~= Seq::empty());
    assert(tally.failed@ =~= Seq::<String>::empty());
    assert(tally.touched@ =~= Seq::<u64>::empty());
    while i < files.len()
        invariant
            i <= files@.len(),
            state.wf(),
            rename_steps(steps, files@.take(i as int), came),
            steps[0] == *old(state),
            steps.last() == *state,
            tally.sums_up(files@.take(i as int), came),
        decreases files@.len() - i,
    {
        let ghost before = came;
        let ghost so_far = steps;
        let one = rename_file(state, &files[i]);
        proof {
            came = before.push(one);
            steps = so_far.push(*state);
            assert(came.drop_last() =~= before);
            assert(files@.take(i + 1).drop_last() =~= files@.take(i as int));
            assert forall|k: int| 0 <= k < i + 1 implies #[trigger] is_rename_step(
                steps,
                files@.take(i + 1),
                came,
                k,
            ) by {
                if k < i {
                    assert(is_rename_step(so_far, files@.take(i as int), before, k));
                }
            }
        }
        match one {
            Renamed::Skipped => {},
            Renamed::Open(id) => {
                tally.open += 1;
                tally.touched.push(id);
            },
            Renamed::Written => {
                tally.written += 1;
            },
            Renamed::Failed => {
                tally.failed.push(files[i].place.path.clone());
            },
        }
        i += 1;
    }
    assert(files@.take(files@.len() as int) =~= files@);
    (tally, Ghost(came))
}

/// See [`rename_note`].
fn tally_note(
    tally: &RenameTally,
    files: &Vec<FileEdits>,
    Ghost(came): Ghost<Seq<Renamed>>,
) -> (note: String)
    requires
        tally.sums_up(files@, came),
    ensures
        note@ == rename_note(files@, came),
{
    let n = files.len();
    let all = tally.open + tally.written;
    let count = decimal(all);
    if files.len() == 0 {
        "the server had nothing to rename".to_owned()
    } else if tally.failed.len() == 0 {
        let unsaved = if tally.open > 0 {
            joined3(", ", decimal(tally.open).as_str(), " open and unsaved")
        } else {
            "".to_owned()
        };
        let what = joined3(" file", plural_ending(all), unsaved.as_str());
        joined3("renamed in ", count.as_str(), what.as_str())
    } else {
        let what = joined(" files; could not edit ", name_list(&tally.failed).as_str());
        joined3("renamed in ", count.as_str(), what.as_str())
    }
}

/// A moment ago, so that what carries it is due.
pub open spec fn long_ago(now: u64) -> u64 {
    if now >= 1000 {
        (now - 1000) as u64
    } else {
        0
    }
}

impl EditorView {
    /// This is `before` with the edits of `files` made.
    pub open spec fn applies_rename(
        &self,
        before: EditorView,
        files: Seq<FileEdits>,
        came: Seq<Renamed>,
        now: u64,
    ) -> bool {
        let edited = State { pane: self.state.pane, panes: self.state.panes, ..before.state };
        &&& files_renamed(edited, before.state, files, came)
        &&& self.state.servers.dirty@ == project_search::stamped(
            before.state.servers.dirty@,
            open_ids_of(came),
            long_ago(now),
        )
        &&& self.state.says(rename_note(files, came), now)
        &&& self.shows(
            before,
            edited.with_server_stamps(self.state.servers.dirty).saying(
                self.state.status.message->0,
            ),
            seq![Effect::ScrollToCursor] + (if count_written(came) > 0 {
                seq![Effect::RefreshGit, Effect::PokeIndexer]
            } else {
                Seq::empty()
            }) + seq![
                Effect::Run(Task::LspFlushChanges),
                Effect::Run(Task::Reparse),
                Effect::SyncTitle,
            ],
            now,
        )
    }

    /// A rename's edits. Open documents are edited in place, one step each,
    /// and left unsaved; files that are not open were edited on disk.
    pub fn apply_rename(&mut self, files: &Vec<FileEdits>, now: u64)
        requires
            old(self).state.wf(),
        ensures
            final(self).state.wf(),
            exists|came: Seq<Renamed>| #[trigger]
                final(self).applies_rename(*old(self), files@, came, now),
    {
        let (tally, Ghost(came)) = rename_files(&mut self.state, files);
        proof {
            files_renamed_only_documents(self.state, old(self).state, files@, came);
        }
        let ago = if now >= 1000 {
            now - 1000
        } else {
            0
        };
        stamp_all(&mut self.state.servers.dirty, &tally.touched, ago);
        let note = tally_note(&tally, files, Ghost(came));
        self.say(note, now);
        let ghost mut done = seq![Effect::ScrollToCursor];
        self.effects.push(Effect::ScrollToCursor);
        if tally.written > 0 {
            self.effects.push(Effect::RefreshGit);
            self.effects.push(Effect::PokeIndexer);
            proof {
                done = done + seq![Effect::RefreshGit, Effect::PokeIndexer];
            }
        }
        assert(self.effects@ =~= old(self).effects@ + done);
        self.effects.push(Effect::Run(Task::LspFlushChanges));
        self.effects.push(Effect::Run(Task::Reparse));
        self.effects.push(Effect::SyncTitle);
        proof {
            done = done + seq![
                Effect::Run(Task::LspFlushChanges),
                Effect::Run(Task::Reparse),
                Effect::SyncTitle,
            ];
        }
        assert(self.effects@ =~= old(self).effects@ + done);
        self.show(now);
        assert(self.effects@ =~= old(self).effects@ + (done + old(self).pumping(now)));
        assert(self.applies_rename(*old(self), files@, came, now));
    }
}

/// Renaming in files touches nothing but the documents.
proof fn files_renamed_only_documents(
    after: State,
    before: State,
    files: Seq<FileEdits>,
    came: Seq<Renamed>,
)
    requires
        files_renamed(after, before, files, came),
    ensures
        after == (State { pane: after.pane, panes: after.panes, ..before }),
{
    let steps = choose|steps: Seq<State>|
        {
            &&& #[trigger] rename_steps(steps, files, came)
            &&& steps[0] == before
            &&& steps.last() == after
        };
    steps_only_documents(steps, files, came, files.len() as int);
}

/// So do the first `n` files.
proof fn steps_only_documents(
    steps: Seq<State>,
    files: Seq<FileEdits>,
    came: Seq<Renamed>,
    n: int,
)
    requires
        rename_steps(steps, files, came),
        0 <= n <= files.len(),
    ensures
        steps[n] == (State { pane: steps[n].pane, panes: steps[n].panes, ..steps[0] }),
    decreases n,
{
    if n > 0 {
        steps_only_documents(steps, files, came, n - 1);
        assert(is_rename_step(steps, files, came, n - 1));
    }
}

} // verus!
