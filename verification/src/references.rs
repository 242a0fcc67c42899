//! The places where a name is used, as a language server gives them.

use crate::buffer::{self, slice_of, Field};
use crate::find::{FindBar, ProjectHit, SearchOptions};
use crate::places::FilePlace;
use crate::project_search::{self, hit_at};
use crate::state::{EditorView, Note, State};
use crate::text::{self, decimal, joined3, plural_ending, read};
use vstd::prelude::*;
use vstd::string::*;

verus! {

/// A place where the name is used.
pub struct Reference {
    pub place: FilePlace,
    /// Where it starts and ends in the text, in bytes.
    pub start: usize,
    pub end: usize,
    /// The text of the file on disk, when it can be read as text; only asked
    /// of a file that is not open.
    pub text: Option<Vec<u8>>,
}

impl Reference {
    /// The text it is in: the open document's before the one on disk.
    pub open spec fn text_in(&self, state: State) -> Option<Seq<u8>> {
        match self.place.document_in(state) {
            Some(b) => Some(b.text@),
            None => match self.text {
                Some(text) => Some(text@),
                None => None,
            },
        }
    }

    /// Where it starts in `text`, which it may lie outside of.
    pub open spec fn start_in(&self, text: Seq<u8>) -> int {
        if self.start < text.len() {
            self.start as int
        } else {
            text.len() as int
        }
    }

    /// Where it ends in `text`, not before its start.
    pub open spec fn end_in(&self, text: Seq<u8>) -> int {
        let end = if self.end < text.len() {
            self.end as int
        } else {
            text.len() as int
        };
        if end < self.start_in(text) {
            self.start_in(text)
        } else {
            end
        }
    }

    /// Whether `hit` is the result for it.
    pub open spec fn is_shown_by(&self, hit: ProjectHit, state: State) -> bool {
        &&& self.text_in(state) matches Some(text)
        &&& hit.path@ == self.place.path@
        &&& hit.start == self.start_in(text)
        &&& hit.end == self.end_in(text)
        &&& hit.line == buffer::line_at(text, self.start_in(text))
        &&& hit.snippet@ == project_search::snippet_of(
            text,
            self.start_in(text),
            self.start_in(text),
        )
    }

    /// The result for it, if its text is known.
    fn hit_in(&self, state: &State) -> (hit: Option<ProjectHit>)
        ensures
            match hit {
                Some(hit) => self.is_shown_by(hit, *state),
                None => self.text_in(*state) is None,
            },
    {
        let text: &Vec<u8> = match self.place.find_document(state) {
            Some(b) => &b.text,
            None => match &self.text {
                Some(text) => text,
                None => {
                    return None;
                },
            },
        };
        let n = text.len();
        let start = if self.start < n {
            self.start
        } else {
            n
        };
        let end = if self.end < n {
            self.end
        } else {
            n
        };
        let mut hit = hit_at(self.place.path.as_str(), text, start, start);
        if end > start {
            hit.end = end;
        }
        Some(hit)
    }
}

/// The places whose text is known, by their number.
pub open spec fn readable_places(references: Seq<Reference>, state: State) -> Seq<int>
    decreases references.len(),
{
    if references.len() == 0 {
        Seq::empty()
    } else {
        let head = readable_places(references.drop_last(), state);
        if references.last().text_in(state) is Some {
            head.push(references.len() - 1)
        } else {
            head
        }
    }
}

/// Whether `hits` are the results for `references`, leaving out those whose
/// text nobody can read.
pub open spec fn are_shown_by(
    hits: Seq<ProjectHit>,
    references: Seq<Reference>,
    state: State,
) -> bool {
    let shown = readable_places(references, state);
    &&& hits.len() == shown.len()
    &&& forall|i: int|
        0 <= i < hits.len() ==> references[shown[i]].is_shown_by(#[trigger] hits[i], state)
}

/// The places are places.
proof fn readable_places_exist(references: Seq<Reference>, state: State)
    ensures
        forall|i: int|
            0 <= i < readable_places(references, state).len() ==> 0 <= #[trigger] readable_places(
                references,
                state,
            )[i] < references.len(),
        readable_places(references, state).len() <= references.len(),
    decreases references.len(),
{
    if references.len() > 0 {
        readable_places_exist(references.drop_last(), state);
    }
}

/// See [`are_shown_by`].
fn hits_of(references: &Vec<Reference>, state: &State) -> (hits: Vec<ProjectHit>)
    ensures
        are_shown_by(hits@, references@, *state),
{
    let mut hits: Vec<ProjectHit> = Vec::new();
    let mut i: usize = 0;
    assert(references@.take(0) =~= Seq::empty());
    while i < references.len()
        invariant
            i <= references@.len(),
            are_shown_by(hits@, references@.take(i as int), *state),
        decreases references@.len() - i,
    {
        let ghost before = hits@;
        let ghost head = references@.take(i as int);
        let ghost next = references@.take(i + 1);
        proof {
            assert(next.drop_last() =~= head);
            readable_places_exist(head, *state);
        }
        if let Some(hit) = references[i].hit_in(state) {
            hits.push(hit);
        }
        proof {
            let shown = readable_places(next, *state);
            let were = readable_places(head, *state);
            assert forall|k: int| 0 <= k < hits@.len() implies next[shown[k]].is_shown_by(
                #[trigger] hits@[k],
                *state,
            ) by {
                if k < before.len() {
                    assert(hits@[k] == before[k]);
                    assert(shown[k] == were[k]);
                    assert(next[shown[k]] == head[were[k]]);
                    assert(head[were[k]].is_shown_by(before[k], *state));
                }
            }
        }
        i += 1;
    }
    assert(references@.take(references@.len() as int) =~= references@);
    hits
}

impl EditorView {
    /// This is `before` with `references` in the find bar, in project mode,
    /// with `name` as the query.
    pub open spec fn shows_references(
        &self,
        before: EditorView,
        references: Seq<Reference>,
        name: Seq<char>,
        now: u64,
    ) -> bool {
        let count = readable_places(references, before.state).len();
        &&& self.state.fields.find matches Some(bar) && {
            &&& bar.query.text@ == name
            &&& bar.query.cursor == vstd::utf8::encode_utf8(name).len()
            &&& bar.query.anchor == bar.query.cursor
            &&& bar.replacement.text@.len() == 0
            &&& bar.replacement.cursor == 0
            &&& bar.replacement.anchor == 0
            &&& !bar.replacing
            &&& bar.options == (SearchOptions {
                case_sensitive: true,
                whole_word: true,
                regex: false,
            })
            &&& bar.project
            &&& are_shown_by(bar.results@, references, before.state)
            &&& bar.selected == 0
            &&& bar.result_scroll == 0
            &&& !bar.searching
        }
        &&& self.state.says(
            text::decimal_digits(count) + " reference"@ + text::plural(count as int),
            now,
        )
        &&& self.shows(
            before,
            before.state.with_find(self.state.fields.find).saying(self.state.status.message->0),
            Seq::empty(),
            now,
        )
    }

    /// The references as project search results: the find bar in project
    /// mode, the word at the caret, from `from` to `to`, as its query, one row
    /// per place.
    pub fn show_references(
        &mut self,
        references: &Vec<Reference>,
        from: usize,
        to: usize,
        now: u64,
    )
        requires
            old(self).state.wf(),
            from <= to <= old(self).state.pane.docs.front().text@.len(),
        ensures
            final(self).state.wf(),
            references@.len() == 0 ==> {
                &&& final(self).state.says("no references found"@, now)
                &&& final(self).marks(
                    *old(self),
                    old(self).state.saying(final(self).state.status.message->0),
                    Seq::empty(),
                )
            },
            references@.len() > 0 ==> final(self).shows_references(
                *old(self),
                references@,
                text::readable(
                    old(self).state.pane.docs.front().text@.subrange(from as int, to as int),
                ),
                now,
            ),
    {
        if references.len() == 0 {
            self.say("no references found".to_owned(), now);
            self.request_redraw();
            return;
        }
        let results = hits_of(references, &self.state);
        let name = read(&slice_of(&self.state.pane.docs.active().text, from, to));
        let count = results.len();
        let n = decimal(count);
        let note = joined3(n.as_str(), " reference", plural_ending(count));
        self.state.fields.find = Some(
            FindBar {
                query: Field::holding(name.as_str()),
                replacement: Field::new(),
                replacing: false,
                options: SearchOptions { case_sensitive: true, whole_word: true, regex: false },
                project: true,
                results,
                selected: 0,
                result_scroll: 0,
                searching: false,
            },
        );
        self.state.status.message = Some(Note { text: note, at: now });
        self.show(now);
        assert(self.shows_references(*old(self), references@, name@, now));
    }
}

} // verus!
