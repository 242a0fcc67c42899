//! Replacing in every file that a project search named.

use crate::buffer::{self, Edit};
use crate::places::FilePlace;
use crate::project_search::{self, name_list, stamp_all};
use crate::state::{EditorView, Effect, State, Task};
use crate::text::{self, decimal, joined, joined3, plural_ending};
use vstd::prelude::*;
use vstd::string::*;

verus! {

/// A file to replace in.
pub struct FileMatches {
    pub place: FilePlace,
    /// The matches in the text of the open document that is the file, each
    /// with what replaces it; none when the query cannot be searched for.
    pub found: Option<Vec<Edit>>,
    /// How many were replaced on disk; only asked of a file that is not open.
    pub written: Option<usize>,
}

/// What became of one file.
#[derive(Clone, Copy, PartialEq, Eq, Structural, Debug)]
pub enum Replaced {
    /// It holds no match any more.
    Nothing,
    /// Changed in its tab, and left unsaved: the document, and how many
    /// matches.
    Open(u64, usize),
    /// Changed on disk: how many matches.
    Written(usize),
    Failed,
}

impl FileMatches {
    /// The most matches it can account for.
    pub open spec fn most(&self) -> nat {
        (match self.found {
            Some(edits) => edits@.len(),
            None => 0,
        }) + (match self.written {
            Some(n) => n as nat,
            None => 0,
        })
    }

    /// What becomes of the file.
    pub open spec fn outcome(&self, state: State) -> Replaced {
        match self.place.document_in(state) {
            Some(b) => match self.found {
                None => Replaced::Failed,
                Some(edits) => {
                    let n = b.taken(edits@);
                    if n == 0 {
                        Replaced::Nothing
                    } else {
                        Replaced::Open(b.id, n as usize)
                    }
                },
            },
            None => match self.written {
                None => Replaced::Failed,
                Some(n) => if n == 0 {
                    Replaced::Nothing
                } else {
                    Replaced::Written(n)
                },
            },
        }
    }
}

/// How many matches `files` can account for.
pub open spec fn most_matches(files: Seq<FileMatches>) -> nat
    decreases files.len(),
{
    if files.len() == 0 {
        0
    } else {
        most_matches(files.drop_last()) + files.last().most()
    }
}

/// The first files account for no more than all of them.
proof fn fewer_files_fewer_matches(files: Seq<FileMatches>, i: int)
    requires
        0 <= i <= files.len(),
    ensures
        most_matches(files.take(i)) <= most_matches(files),
    decreases files.len() - i,
{
    if i < files.len() {
        fewer_files_fewer_matches(files, i + 1);
        assert(files.take(i + 1).drop_last() =~= files.take(i));
    } else {
        assert(files.take(i) =~= files);
    }
}

/// Whether `after` is `before` with the matches of `f` replaced, which came to
/// `came`. An open document is changed in its tab; a file that is not open was
/// changed on disk.
pub open spec fn file_replaced(after: State, before: State, f: FileMatches, came: Replaced) -> bool {
    &&& came == f.outcome(before)
    &&& if came is Open {
        f.place.edits_in(after, before, f.found->0@)
    } else {
        after == before
    }
}

/// Whether file `i` was replaced in between the states before and after it.
pub open spec fn is_replace_step(
    steps: Seq<State>,
    files: Seq<FileMatches>,
    came: Seq<Replaced>,
    i: int,
) -> bool {
    file_replaced(steps[i + 1], steps[i], files[i], came[i])
}

/// Whether `steps` are the states with `files` replaced in, one after the
/// other, which came to `came`.
pub open spec fn replace_steps(
    steps: Seq<State>,
    files: Seq<FileMatches>,
    came: Seq<Replaced>,
) -> bool {
    &&& came.len() == files.len()
    &&& steps.len() == files.len() + 1
    &&& forall|i: int| 0 <= i < files.len() ==> #[trigger] is_replace_step(steps, files, came, i)
}

/// Whether `after` is `before` with all `files` replaced in.
pub open spec fn files_replaced(
    after: State,
    before: State,
    files: Seq<FileMatches>,
    came: Seq<Replaced>,
) -> bool {
    exists|steps: Seq<State>|
        {
            &&& #[trigger] replace_steps(steps, files, came)
            &&& steps[0] == before
            &&& steps.last() == after
        }
}

/// How many matches were replaced.
pub open spec fn replaced_count(came: Seq<Replaced>) -> nat
    decreases came.len(),
{
    if came.len() == 0 {
        0
    } else {
        replaced_count(came.drop_last()) + match came.last() {
            Replaced::Open(_, n) => n as nat,
            Replaced::Written(n) => n as nat,
            _ => 0,
        }
    }
}

/// The documents that were changed in their tabs.
pub open spec fn open_ids(came: Seq<Replaced>) -> Seq<u64>
    decreases came.len(),
{
    if came.len() == 0 {
        Seq::empty()
    } else {
        match came.last() {
            Replaced::Open(id, _) => open_ids(came.drop_last()).push(id),
            _ => open_ids(came.drop_last()),
        }
    }
}

/// How many files were changed on disk.
pub open spec fn written_count(came: Seq<Replaced>) -> nat
    decreases came.len(),
{
    if came.len() == 0 {
        0
    } else {
        written_count(came.drop_last()) + if came.last() is Written {
            1nat
        } else {
            0
        }
    }
}

/// The files that could not be edited.
pub open spec fn failures(files: Seq<FileMatches>, came: Seq<Replaced>) -> Seq<String>
    decreases files.len(),
{
    if files.len() == 0 {
        Seq::empty()
    } else {
        let head = failures(files.drop_last(), came.drop_last());
        if came.last() is Failed {
            head.push(files.last().place.path)
        } else {
            head
        }
    }
}

/// The status line's account of replacing in `files`.
pub open spec fn replace_note(files: Seq<FileMatches>, came: Seq<Replaced>) -> Seq<char> {
    let open = open_ids(came).len();
    let all = open + written_count(came);
    "replaced "@ + text::decimal_digits(replaced_count(came)) + " in "@ + text::decimal_digits(all)
        + " file"@ + text::plural(all as int) + (if open > 0 {
        ", "@ + text::decimal_digits(open) + " open and unsaved"@
    } else {
        Seq::empty()
    }) + (if failures(files, came).len() > 0 {
        "; could not edit "@ + project_search::named(failures(files, came))
    } else {
        Seq::empty()
    })
}

/// What replacing in files came to.
struct Tally {
    replaced: usize,
    written: usize,
    failed: Vec<String>,
    touched: Vec<u64>,
}

impl Tally {
    /// This sums up `came`.
    spec fn sums_up(&self, files: Seq<FileMatches>, came: Seq<Replaced>) -> bool {
        &&& self.replaced == replaced_count(came)
        &&& self.written == written_count(came)
        &&& self.failed@ == failures(files, came)
        &&& self.touched@ == open_ids(came)
        &&& self.replaced <= most_matches(files)
        &&& self.touched@.len() + self.written <= files.len()
    }

    /// See [`replace_note`].
    fn account(&self, files: &Vec<FileMatches>, Ghost(came): Ghost<Seq<Replaced>>) -> (s: String)
        requires
            self.sums_up(files@, came),
        ensures
            s@ == replace_note(files@, came),
    {
        let most = files.len();
        let open = self.touched.len();
        let all = open + self.written;
        let n = decimal(self.replaced);
        let m = decimal(all);
        let mut s: String = joined3("replaced ", n.as_str(), " in ");
        s.append(m.as_str());
        s.append(" file");
        s.append(plural_ending(all));
        let ghost head = s@;
        let ghost opened = if open > 0 {
            ", "@ + text::decimal_digits(open as nat) + " open and unsaved"@
        } else {
            Seq::<char>::empty()
        };
        if open > 0 {
            let k = decimal(open);
            let part = joined3(", ", k.as_str(), " open and unsaved");
            s.append(part.as_str());
        }
        assert(s@ =~= head + opened);
        if self.failed.len() > 0 {
            let names = name_list(&self.failed);
            let part = joined("; could not edit ", names.as_str());
            s.append(part.as_str());
        }
        assert(s@ =~= replace_note(files@, came));
        s
    }
}

/// Replaces in one file.
fn replace_in_file(state: &mut State, f: &FileMatches) -> (came: Replaced)
    requires
        old(state).wf(),
    ensures
        final(state).wf(),
        file_replaced(*final(state), *old(state), *f, came),
        match came {
            Replaced::Open(_, n) => n <= f.most(),
            Replaced::Written(n) => n <= f.most(),
            _ => true,
        },
{
    if f.place.find_document(state).is_none() {
        return match f.written {
            None => Replaced::Failed,
            Some(n) => if n == 0 {
                Replaced::Nothing
            } else {
                Replaced::Written(n)
            },
        };
    }
    let edits = match &f.found {
        None => {
            return Replaced::Failed;
        },
        Some(edits) => edits,
    };
    proof {
        let b = f.place.document_in(*old(state))->0;
        count_is_bounded(b.text@, edits@, 0);
    }
    match f.place.edit(state, edits) {
        Some((id, n)) => if n == 0 {
            Replaced::Nothing
        } else {
            Replaced::Open(id, n)
        },
        None => Replaced::Nothing,
    }
}

/// No more edits go into a text than there are.
proof fn count_is_bounded(text: Seq<u8>, edits: Seq<Edit>, at: int)
    ensures
        buffer::edit_count(text, edits, at) <= edits.len(),
    decreases edits.len(),
{
    if edits.len() > 0 {
        count_is_bounded(text, edits.drop_first(), edits[0].end as int);
        count_is_bounded(text, edits.drop_first(), at);
    }
}

/// Replaces in all `files`.
fn replace_in_files(state: &mut State, files: &Vec<FileMatches>) -> (r: (Tally, Ghost<
    Seq<Replaced>,
>))
    requires
        old(state).wf(),
        most_matches(files@) <= usize::MAX,
    ensures
        final(state).wf(),
        files_replaced(*final(state), *old(state), files@, r.1@),
        r.0.sums_up(files@, r.1@),
{
    let mut tally = Tally { replaced: 0, written: 0, failed: Vec::new(), touched: Vec::new() };
    let ghost mut came = Seq::<Replaced>::empty();
    let ghost mut steps = seq![*old(state)];
    let mut i: usize = 0;
    assert(files@.take(0) =~= Seq::empty());
    assert(tally.failed@ =~= Seq::<String>::empty());
    assert(tally.touched@ =~= Seq::<u64>::empty());
    while i < files.len()
        invariant
            i <= files@.len(),
            state.wf(),
            most_matches(files@) <= usize::MAX,
            replace_steps(steps, files@.take(i as int), came),
            steps[0] == *old(state),
            steps.last() == *state,
            tally.sums_up(files@.take(i as int), came),
        decreases files@.len() - i,
    {
        let ghost before = came;
        let ghost so_far = steps;
        let one = replace_in_file(state, &files[i]);
        proof {
            came = before.push(one);
            steps = so_far.push(*state);
            assert(came.drop_last() =~= before);
            assert(files@.take(i + 1).drop_last() =~= files@.take(i as int));
            fewer_files_fewer_matches(files@, i + 1);
            assert forall|k: int| 0 <= k < i + 1 implies #[trigger] is_replace_step(
                steps,
                files@.take(i + 1),
                came,
                k,
            ) by {
                if k < i {
                    assert(is_replace_step(so_far, files@.take(i as int), before, k));
                }
            }
        }
        match one {
            Replaced::Nothing => {},
            Replaced::Open(id, n) => {
                tally.replaced += n;
                tally.touched.push(id);
            },
            Replaced::Written(n) => {
                tally.replaced += n;
                tally.written += 1;
            },
            Replaced::Failed => {
                tally.failed.push(files[i].place.path.clone());
            },
        }
        i += 1;
    }
    assert(files@.take(files@.len() as int) =~= files@);
    (tally, Ghost(came))
}

/// Replacing in files touches nothing but the documents.
proof fn files_replaced_only_documents(
    after: State,
    before: State,
    files: Seq<FileMatches>,
    came: Seq<Replaced>,
)
    requires
        files_replaced(after, before, files, came),
    ensures
        after == (State { pane: after.pane, panes: after.panes, ..before }),
{
    let steps = choose|steps: Seq<State>|
        {
            &&& #[trigger] replace_steps(steps, files, came)
            &&& steps[0] == before
            &&& steps.last() == after
        };
    steps_only_documents(steps, files, came, files.len() as int);
}

/// So do the first `n` files.
proof fn steps_only_documents(
    steps: Seq<State>,
    files: Seq<FileMatches>,
    came: Seq<Replaced>,
    n: int,
)
    requires
        replace_steps(steps, files, came),
        0 <= n <= files.len(),
    ensures
        steps[n] == (State { pane: steps[n].pane, panes: steps[n].panes, ..steps[0] }),
    decreases n,
{
    if n > 0 {
        steps_only_documents(steps, files, came, n - 1);
        assert(is_replace_step(steps, files, came, n - 1));
    }
}

/// A file that is open is never written: what was typed in its tab is not
/// saved along with the replacements.
pub proof fn an_open_file_is_changed_in_its_tab(state: State, f: FileMatches)
    requires
        f.place.document_in(state) is Some,
    ensures
        !(f.outcome(state) is Written),
        f.outcome(state) matches Replaced::Open(id, _) ==> id == f.place.document_in(state)->0.id,
{
}

impl EditorView {
    /// This is `before` with the matches of `files` replaced, which came to
    /// `came`.
    pub open spec fn replaces_in(
        &self,
        before: EditorView,
        files: Seq<FileMatches>,
        came: Seq<Replaced>,
        now: u64,
    ) -> bool {
        let edited = State { pane: self.state.pane, panes: self.state.panes, ..before.state };
        &&& files_replaced(edited, before.state, files, came)
        &&& self.state.servers.dirty@ == project_search::stamped(
            before.state.servers.dirty@,
            open_ids(came),
            now,
        )
        &&& self.state.says(replace_note(files, came), now)
        &&& match (before.state.fields.find, self.state.fields.find) {
            (Some(bar), Some(after)) => after.is_cleared(bar, bar.searching),
            (None, None) => true,
            _ => false,
        }
        &&& self.shows(
            before,
            edited.with_server_stamps(self.state.servers.dirty).with_find(
                self.state.fields.find,
            ).saying(self.state.status.message->0),
            (if written_count(came) > 0 {
                seq![Effect::RefreshGit, Effect::PokeIndexer]
            } else {
                Seq::empty()
            }) + seq![Effect::Run(Task::Reparse), Effect::SyncTitle],
            now,
        )
    }

    /// Replaces in `files`. The changed documents are stamped for their
    /// servers, what came of it is said, and the results go, since they
    /// described text that is gone. They are not searched for again: a search
    /// reads the disk, and the open documents are not saved.
    pub fn replace_files(&mut self, files: &Vec<FileMatches>, now: u64)
        requires
            old(self).state.wf(),
            most_matches(files@) <= usize::MAX,
        ensures
            final(self).state.wf(),
            exists|came: Seq<Replaced>| #[trigger]
                final(self).replaces_in(*old(self), files@, came, now),
    {
        let (tally, Ghost(came)) = replace_in_files(&mut self.state, files);
        proof {
            files_replaced_only_documents(self.state, old(self).state, files@, came);
        }
        stamp_all(&mut self.state.servers.dirty, &tally.touched, now);
        let ghost mut done = Seq::<Effect>::empty();
        if tally.written > 0 {
            self.effects.push(Effect::RefreshGit);
            self.effects.push(Effect::PokeIndexer);
            proof {
                done = seq![Effect::RefreshGit, Effect::PokeIndexer];
            }
        }
        assert(self.effects@ =~= old(self).effects@ + done);
        let note = tally.account(files, Ghost(came));
        if let Some(bar) = &mut self.state.fields.find {
            bar.results.clear();
            bar.selected = 0;
            bar.result_scroll = 0;
        }
        self.effects.push(Effect::Run(Task::Reparse));
        self.effects.push(Effect::SyncTitle);
        proof {
            done = done + seq![Effect::Run(Task::Reparse), Effect::SyncTitle];
        }
        assert(self.effects@ =~= old(self).effects@ + done);
        self.say(note, now);
        self.show(now);
        assert(self.effects@ =~= old(self).effects@ + (done + old(self).pumping(now)));
        assert(self.replaces_in(*old(self), files@, came, now));
    }
}

} // verus!
