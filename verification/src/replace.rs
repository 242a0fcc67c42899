//! Replacing what the find bar finds: one match, every match in the document,
//! every match in the project.

use crate::buffer::{self, Edit};
use crate::find;
use crate::state::{EditorView, Effect, Task};
use crate::text::{self, decimal, joined, joined3, quoted};
use vstd::prelude::*;
use vstd::string::*;

verus! {

/// The match that is exactly the selection, the first of them.
pub open spec fn selected_match(front: buffer::Buffer, matches: Seq<Edit>) -> Option<int>
    decreases matches.len(),
{
    if matches.len() == 0 || !front.has_selection() {
        None
    } else {
        match selected_match(front, matches.drop_last()) {
            Some(i) => Some(i),
            None => if matches.last().start == front.selection_start() && matches.last().end
                == front.selection_end() {
                Some(matches.len() - 1)
            } else {
                None
            },
        }
    }
}

/// The selected match is the first whose range is the selection; there is none
/// when nothing is selected, or when no match has that range.
pub proof fn selected_match_is_first(front: buffer::Buffer, matches: Seq<Edit>)
    ensures
        match selected_match(front, matches) {
            Some(i) => {
                &&& 0 <= i < matches.len()
                &&& front.anchor != front.cursor
                &&& (front.anchor == matches[i].start && front.cursor == matches[i].end) || (
                front.cursor == matches[i].start && front.anchor == matches[i].end)
                &&& matches[i].start < matches[i].end
                &&& forall|j: int|
                    0 <= j < i ==> {
                        ||| (#[trigger] matches[j]).start != matches[i].start
                        ||| matches[j].end != matches[i].end
                    }
            },
            None => front.anchor != front.cursor ==> forall|j: int|
                0 <= j < matches.len() && (#[trigger] matches[j]).start < matches[j].end ==> !((
                front.anchor == matches[j].start && front.cursor == matches[j].end) || (
                front.cursor == matches[j].start && front.anchor == matches[j].end)),
        },
    decreases matches.len(),
{
    if matches.len() > 0 && front.has_selection() {
        let head = matches.drop_last();
        selected_match_is_first(front, head);
        assert(forall|j: int| 0 <= j < head.len() ==> head[j] == matches[j]);
    }
}

/// See [`selected_match`].
fn find_selected(front: &buffer::Buffer, matches: &Vec<Edit>) -> (found: Option<usize>)
    ensures
        match (found, selected_match(*front, matches@)) {
            (Some(i), Some(j)) => i == j,
            (None, None) => true,
            _ => false,
        },
        found matches Some(i) ==> i < matches@.len() && front.has_selection()
            && matches@[i as int].start == front.selection_start() && matches@[i as int].end
            == front.selection_end(),
{
    if front.anchor == front.cursor {
        return None;
    }
    let (from, to) = if front.anchor < front.cursor {
        (front.anchor, front.cursor)
    } else {
        (front.cursor, front.anchor)
    };
    let mut found: Option<usize> = None;
    let mut i: usize = 0;
    assert(matches@.take(0) =~= Seq::empty());
    while i < matches.len()
        invariant
            front.has_selection(),
            from == front.selection_start(),
            to == front.selection_end(),
            i <= matches@.len(),
            match (found, selected_match(*front, matches@.take(i as int))) {
                (Some(a), Some(b)) => a == b && a < i && matches@[a as int].start == from
                    && matches@[a as int].end == to,
                (None, None) => true,
                _ => false,
            },
        decreases matches@.len() - i,
    {
        assert(matches@.take(i + 1).drop_last() =~= matches@.take(i as int));
        if found.is_none() && matches[i].start == from && matches[i].end == to {
            found = Some(i);
        }
        i += 1;
    }
    assert(matches@.take(matches@.len() as int) =~= matches@);
    found
}

/// The note after replacing `n` matches of `needle`.
pub open spec fn replaced_note(n: int, needle: Seq<char>) -> Seq<char> {
    if n == 0 {
        "no matches for "@ + text::debug_quoted(needle)
    } else if n == 1 {
        "replaced 1 occurrence"@
    } else {
        "replaced "@ + text::decimal_digits(n as nat) + " occurrences"@
    }
}

/// See [`replaced_note`].
fn replaced_text(n: usize, needle: &str) -> (s: String)
    ensures
        s@ == replaced_note(n as int, needle@),
{
    if n == 0 {
        let shown = quoted(needle);
        joined("no matches for ", shown.as_str())
    } else if n == 1 {
        "replaced 1 occurrence".to_owned()
    } else {
        let count = decimal(n);
        joined3("replaced ", count.as_str(), " occurrences")
    }
}

impl EditorView {
    /// Replaces the current match, then advances to the next one. `found` is
    /// what the search finds in the active document, with the replacements.
    ///
    /// Whether or not this one matched, it moves on: pressing Return in the
    /// replace field should always make progress through the file. A read-only
    /// document is not changed.
    pub fn replace_one(&mut self, found: &Result<Vec<Edit>, String>, now: u64)
        requires
            old(self).state.wf(),
            found matches Ok(matches) ==> forall|i: int|
                0 <= i < matches@.len() ==> (#[trigger] matches@[i]).with@.len() + old(
                    self,
                ).state.pane.docs.front().text@.len() <= usize::MAX,
        ensures
            final(self).state.wf(),
            find::query_of(old(self).state).len() == 0 ==> *final(self) == *old(self),
            (old(self).state.fields.find matches Some(bar) && bar.query.text@.len() > 0) ==> (
            found matches Ok(matches) ==> forall|i: int|
                #![trigger matches@[i]]
                {
                    let front = old(self).state.pane.docs.front();
                    &&& 0 <= i < matches@.len()
                    &&& matches@[i].start < matches@[i].end
                    &&& (front.anchor == matches@[i].start && front.cursor == matches@[i].end) || (
                    front.cursor == matches@[i].start && front.anchor == matches@[i].end)
                    &&& forall|j: int|
                        0 <= j < i ==> (#[trigger] matches@[j]).start != matches@[i].start
                    &&& !front.read_only
                } ==> {
                    let text = old(self).state.pane.docs.front().text@;
                    final(self).state.pane.docs.front().text@ == text.take(matches@[i].start as int)
                        + matches@[i].with@ + text.skip(matches@[i].end as int)
                }),
            find::query_of(old(self).state).len() > 0 ==> match found {
                Err(error) => final(self).complains(
                    *old(self),
                    old(self).state,
                    Seq::empty(),
                    error@,
                    now,
                ),
                Ok(matches) => match selected_match(old(self).state.pane.docs.front(), matches@) {
                    None => final(self).shows(
                        *old(self),
                        old(self).state,
                        seq![Effect::Run(Task::FindStep(true))],
                        now,
                    ),
                    Some(i) => {
                        let front = old(self).state.pane.docs.front();
                        let after = final(self).state.pane.docs;
                        &&& after.fronts(old(self).state.pane.docs, after.front())
                        &&& after.front().splices(
                            front,
                            front.selection_start(),
                            front.selection_end(),
                            matches@[i].with@,
                        )
                        &&& final(self).shows(
                            *old(self),
                            old(self).state.at_match(after),
                            seq![
                                Effect::Run(Task::FindStep(true)),
                                Effect::Run(Task::Reparse),
                            ],
                            now,
                        )
                    },
                },
            },
    {
        let empty = match &self.state.fields.find {
            Some(bar) => bar.query.text.as_str().is_empty(),
            None => true,
        };
        if empty {
            return;
        }
        let matches = match found {
            Err(error) => {
                self.say(joined("invalid regex: ", error.as_str()), now);
                assert(self.effects@ =~= old(self).effects@ + Seq::<Effect>::empty());
                return;
            },
            Ok(matches) => matches,
        };
        let hit = find_selected(self.state.pane.docs.active(), matches);
        proof {
            selected_match_is_first(self.state.pane.docs.front(), matches@);
        }
        if let Some(i) = hit {
            assert(matches@[i as int].with@.len() + self.state.pane.docs.front().text@.len()
                <= usize::MAX);
            self.state.pane.docs.splice_in_front(matches[i].start, matches[i].end, &matches[i].with);
        }
        self.ask(Effect::Run(Task::FindStep(true)));
        if hit.is_some() {
            self.ask(Effect::Run(Task::Reparse));
        }
        let ghost done = self.effects@.skip(old(self).effects@.len() as int);
        assert(hit is Some ==> done =~= seq![
            Effect::Run(Task::FindStep(true)),
            Effect::Run(Task::Reparse),
        ]);
        assert(hit is None ==> done =~= seq![Effect::Run(Task::FindStep(true))]);
        self.show(now);
        assert(self.effects@ =~= old(self).effects@ + (done + old(self).pumping(now)));
    }

    /// Replaces every match in the active document, unless it is read-only.
    /// `found` is what the search finds there, with the replacements.
    pub fn replace_all(&mut self, found: &Result<Vec<Edit>, String>, now: u64)
        requires
            old(self).state.wf(),
        ensures
            final(self).state.wf(),
            find::query_of(old(self).state).len() == 0 ==> *final(self) == *old(self),
            (old(self).state.fields.find matches Some(bar) && bar.query.text@.len() > 0) ==> (
            found matches Ok(matches) ==> {
                let front = old(self).state.pane.docs.front();
                !front.read_only && buffer::in_order(front.text@, matches@, 0)
                    ==> buffer::holds_edits(
                    final(self).state.pane.docs.front().text@,
                    front.text@,
                    matches@,
                    0,
                )
            }),
            find::query_of(old(self).state).len() > 0 ==> match found {
                Err(error) => final(self).complains(
                    *old(self),
                    old(self).state,
                    Seq::empty(),
                    error@,
                    now,
                ),
                Ok(matches) => {
                    let front = old(self).state.pane.docs.front();
                    let after = final(self).state.pane.docs;
                    let count = front.taken(matches@);
                    &&& after.fronts(old(self).state.pane.docs, after.front())
                    &&& count == 0 ==> after.front() == front
                    &&& count > 0 ==> crate::places::edited_by(after.front(), front, matches@)
                    &&& final(self).state.says(
                        replaced_note(count as int, find::query_of(old(self).state)),
                        now,
                    )
                    &&& final(self).shows(
                        *old(self),
                        old(self).state.at_match(after).saying(
                            final(self).state.status.message->0,
                        ),
                        if count > 0 {
                            seq![Effect::Run(Task::Reparse)]
                        } else {
                            Seq::empty()
                        },
                        now,
                    )
                },
            },
    {
        let needle: String = match &self.state.fields.find {
            Some(bar) => bar.query.text.clone(),
            None => String::new(),
        };
        if needle.as_str().is_empty() {
            return;
        }
        let matches = match found {
            Err(error) => {
                self.say(joined("invalid regex: ", error.as_str()), now);
                assert(self.effects@ =~= old(self).effects@ + Seq::<Effect>::empty());
                return;
            },
            Ok(matches) => matches,
        };
        proof {
            let text = self.state.pane.docs.front().text@;
            if buffer::in_order(text, matches@, 0) {
                buffer::every_edit_is_carried_out(text, matches@, 0);
                if matches@.len() == 0 {
                    assert(matches@ =~= Seq::empty());
                    buffer::nothing_to_edit(text);
                }
            }
        }
        let count = self.state.pane.docs.replace_in_front(matches);
        self.say(replaced_text(count, needle.as_str()), now);
        if count > 0 {
            self.ask(Effect::Run(Task::Reparse));
        }
        let ghost done = if count > 0 {
            seq![Effect::Run(Task::Reparse)]
        } else {
            Seq::<Effect>::empty()
        };
        assert(self.effects@ =~= old(self).effects@ + done);
        self.show(now);
        assert(self.effects@ =~= old(self).effects@ + (done + old(self).pumping(now)));
    }
}

} // verus!
