//! Finding in the whole project: what a search keeps, what the find bar does
//! with its answer, and what replacing in it is to work on.

use crate::buffer::{self, Edit};
use crate::find::{FindBar, ProjectHit, SEARCH_LIMIT};
use crate::path::{self, file_name, path_eq};
use crate::save::Question;
use crate::state::{Answer, EditorView, Effect, Project, Servers, State, Task};
use crate::table::Table;
use crate::text::{self, decimal, joined, joined3, plural_ending, read, shortened, trim};
use vstd::prelude::*;
use vstd::string::*;

verus! {

/// Files past this size are not searched.
pub const SEARCHED_BYTES: u64 = 2097152;

/// How much of a line a result shows, in characters.
pub const SNIPPET_CHARS: usize = 100;

/// Whether a file of this size is searched.
pub fn is_searched(bytes: u64) -> (r: bool)
    ensures
        r == (bytes <= 2 * 1024 * 1024),
{
    bytes <= SEARCHED_BYTES
}

/// What a result shows of the lines from `start` to `end`: their text without
/// the white space around it, cut short.
pub open spec fn snippet_of(text: Seq<u8>, start: int, end: int) -> Seq<char> {
    let lines = text.subrange(
        buffer::line_start_at(text, start),
        buffer::line_end_at(text, end),
    );
    let shown = text::trimmed(text::readable(lines));
    if shown.len() > SNIPPET_CHARS {
        shown.take(SNIPPET_CHARS as int)
    } else {
        shown
    }
}

/// The result for the match from `start` to `end` in the text of `path`.
pub fn hit_at(path: &str, text: &Vec<u8>, start: usize, end: usize) -> (hit: ProjectHit)
    requires
        start <= end <= text@.len(),
    ensures
        hit.path@ == path@,
        hit.start == start,
        hit.end == end,
        hit.line == buffer::line_at(text@, start as int),
        hit.snippet@ == snippet_of(text@, start as int, end as int),
{
    let from = buffer::line_start(text, start);
    let to = buffer::line_end(text, end);
    let lines = buffer::slice_of(text, from, to);
    let whole = read(&lines);
    let shown = trim(whole.as_str());
    let line = buffer::line_of(text, start);
    ProjectHit {
        path: path.to_owned(),
        start,
        end,
        line,
        snippet: shortened(shown.as_str(), SNIPPET_CHARS),
    }
}

/// Whether `hit` is the result for `found` in `text`.
pub open spec fn is_hit(hit: ProjectHit, path: Seq<char>, text: Seq<u8>, found: Edit) -> bool {
    &&& hit.path@ == path
    &&& hit.start == found.start
    &&& hit.end == found.end
    &&& hit.line == buffer::line_at(text, found.start as int)
    &&& hit.snippet@ == snippet_of(text, found.start as int, found.end as int)
}

/// Adds the matches of one file to the results, up to the limit. Returns
/// whether the limit is reached, which ends the search.
pub fn collect_hits(
    results: &mut Vec<ProjectHit>,
    path: &str,
    text: &Vec<u8>,
    matches: &Vec<Edit>,
) -> (full: bool)
    requires
        old(results)@.len() < SEARCH_LIMIT,
        forall|i: int|
            0 <= i < matches@.len() ==> (#[trigger] matches@[i]).start <= matches@[i].end
                <= text@.len(),
    ensures
        full == (final(results)@.len() == SEARCH_LIMIT),
        final(results)@.len() == (if old(results)@.len() + matches@.len() < SEARCH_LIMIT {
            old(results)@.len() + matches@.len()
        } else {
            SEARCH_LIMIT as nat
        }),
        forall|i: int|
            0 <= i < old(results)@.len() ==> final(results)@[i] == #[trigger] old(results)@[i],
        forall|i: int|
            old(results)@.len() <= i < final(results)@.len() ==> is_hit(
                #[trigger] final(results)@[i],
                path@,
                text@,
                matches@[i - old(results)@.len()],
            ),
{
    let ghost before = results@;
    let mut i: usize = 0;
    while i < matches.len()
        invariant
            before == old(results)@,
            before.len() < SEARCH_LIMIT,
            i <= matches@.len(),
            results@.len() == before.len() + i,
            results@.len() < SEARCH_LIMIT,
            forall|j: int|
                0 <= j < matches@.len() ==> (#[trigger] matches@[j]).start <= matches@[j].end
                    <= text@.len(),
            forall|j: int| 0 <= j < before.len() ==> results@[j] == #[trigger] before[j],
            forall|j: int|
                before.len() <= j < results@.len() ==> is_hit(
                    #[trigger] results@[j],
                    path@,
                    text@,
                    matches@[j - before.len()],
                ),
        decreases matches@.len() - i,
    {
        let found = &matches[i];
        results.push(hit_at(path, text, found.start, found.end));
        i += 1;
        if results.len() >= SEARCH_LIMIT {
            return true;
        }
    }
    false
}

/// What a file of the project holds, as a search finds it.
pub struct SearchedFile {
    pub path: String,
    /// How large it is, when that can be told.
    pub bytes: Option<u64>,
    /// Its text, when it can be read as text.
    pub text: Option<Vec<u8>>,
    /// The matches in the text.
    pub found: Result<Vec<Edit>, String>,
}

impl SearchedFile {
    /// Whether it is searched: it is small enough, and text.
    pub open spec fn searched(&self) -> bool {
        &&& self.bytes matches Some(bytes)
        &&& bytes <= SEARCHED_BYTES
        &&& self.text is Some
    }

    /// The matches lie in the text.
    pub open spec fn wf(&self) -> bool {
        match (self.text, self.found) {
            (Some(text), Ok(found)) => forall|i: int|
                0 <= i < found@.len() ==> (#[trigger] found@[i]).start <= found@[i].end
                    <= text@.len(),
            _ => true,
        }
    }
}

/// The matches in the first `n` of `files`, in order: the number of the file,
/// and which of its matches it is.
pub open spec fn places_in(files: Seq<SearchedFile>, n: int) -> Seq<(int, int)>
    decreases n,
{
    if n <= 0 {
        Seq::empty()
    } else {
        let head = places_in(files, n - 1);
        match (files[n - 1].searched(), files[n - 1].found) {
            (true, Ok(found)) => head + Seq::new(
                found@.len(),
                |k: int| (n - 1, k),
            ),
            _ => head,
        }
    }
}

/// Whether the search of `files` stops at file `n`: the limit is not reached
/// before it, and it cannot be searched.
pub open spec fn stops_at(files: Seq<SearchedFile>, n: int) -> bool {
    &&& 0 <= n < files.len()
    &&& files[n].searched()
    &&& files[n].found is Err
    &&& places_in(files, n).len() < SEARCH_LIMIT
}

/// Whether `hit` is the result for `place`.
pub open spec fn is_hit_at(hit: ProjectHit, files: Seq<SearchedFile>, place: (int, int)) -> bool {
    let file = files[place.0];
    is_hit(hit, file.path@, file.text->0@, file.found->Ok_0@[place.1])
}

/// Whether `hits` are the results for the first of `places`, up to the limit.
pub open spec fn are_hits(
    hits: Seq<ProjectHit>,
    files: Seq<SearchedFile>,
    places: Seq<(int, int)>,
) -> bool {
    &&& hits.len() == (if places.len() < SEARCH_LIMIT {
        places.len()
    } else {
        SEARCH_LIMIT as nat
    })
    &&& forall|i: int| 0 <= i < hits.len() ==> is_hit_at(#[trigger] hits[i], files, places[i])
}

/// More files have the matches of the first ones first.
proof fn places_grow(files: Seq<SearchedFile>, m: int, n: int)
    requires
        0 <= m <= n,
    ensures
        places_in(files, m).len() <= places_in(files, n).len(),
        forall|i: int|
            0 <= i < places_in(files, m).len() ==> places_in(files, n)[i] == places_in(
                files,
                m,
            )[i],
    decreases n - m,
{
    if m < n {
        places_grow(files, m, n - 1);
    }
}

/// What searching `files` comes to: the results in their order, up to the
/// limit, or why a file before it could not be searched.
pub fn search_files(files: &Vec<SearchedFile>) -> (outcome: Result<Vec<ProjectHit>, String>)
    requires
        forall|i: int| 0 <= i < files@.len() ==> (#[trigger] files@[i]).wf(),
    ensures
        match outcome {
            Ok(hits) => {
                &&& are_hits(hits@, files@, places_in(files@, files@.len() as int))
                &&& forall|n: int| !stops_at(files@, n)
            },
            Err(error) => exists|n: int|
                #![trigger files@[n]]
                stops_at(files@, n) && files@[n].found == Err::<Vec<Edit>, String>(error)
                    && forall|m: int| m < n ==> !stops_at(files@, m),
        },
{
    let mut hits: Vec<ProjectHit> = Vec::new();
    let mut n: usize = 0;
    while n < files.len()
        invariant
            n <= files@.len(),
            forall|i: int| 0 <= i < files@.len() ==> (#[trigger] files@[i]).wf(),
            hits@.len() < SEARCH_LIMIT,
            are_hits(hits@, files@, places_in(files@, n as int)),
            forall|m: int| m < n ==> !stops_at(files@, m),
        decreases files@.len() - n,
    {
        let file = &files[n];
        assert(file.wf());
        let small = match file.bytes {
            Some(bytes) => is_searched(bytes),
            None => false,
        };
        if small {
            if let Some(text) = &file.text {
                match &file.found {
                    Err(error) => {
                        assert(stops_at(files@, n as int));
                        return Err(error.clone());
                    },
                    Ok(found) => {
                        let ghost head = places_in(files@, n as int);
                        let ghost before = hits@;
                        let full = collect_hits(&mut hits, file.path.as_str(), text, found);
                        proof {
                            let places = places_in(files@, n + 1);
                            assert forall|i: int| 0 <= i < hits@.len() implies is_hit_at(
                                #[trigger] hits@[i],
                                files@,
                                places[i],
                            ) by {
                                if i < before.len() {
                                    assert(hits@[i] == before[i]);
                                    assert(places[i] == head[i]);
                                    assert(is_hit_at(before[i], files@, head[i]));
                                } else {
                                    assert(places[i] == (n as int, i - before.len()));
                                }
                            }
                        }
                        if full {
                            proof {
                                let all = files@.len() as int;
                                places_grow(files@, n + 1, all);
                                assert forall|m: int| !stops_at(files@, m) by {
                                    if n < m < all {
                                        places_grow(files@, n + 1, m);
                                    }
                                }
                            }
                            return Ok(hits);
                        }
                    },
                }
            }
        }
        n += 1;
    }
    Ok(hits)
}

/// The files of `hits`, each once, in the order they come first.
pub open spec fn files_of(hits: Seq<ProjectHit>) -> Seq<String>
    decreases hits.len(),
{
    if hits.len() == 0 {
        Seq::empty()
    } else {
        let head = files_of(hits.drop_last());
        if exists|i: int|
            0 <= i < head.len() && path::same_path((#[trigger] head[i])@, hits.last().path@) {
            head
        } else {
            head.push(hits.last().path)
        }
    }
}

/// Whether one of `files` is `place`.
fn names_file(files: &Vec<String>, place: &str) -> (r: bool)
    ensures
        r == exists|i: int|
            0 <= i < files@.len() && path::same_path((#[trigger] files@[i])@, place@),
{
    let mut i: usize = 0;
    while i < files.len()
        invariant
            i <= files@.len(),
            forall|j: int|
                0 <= j < i ==> !path::same_path((#[trigger] files@[j])@, place@),
        decreases files@.len() - i,
    {
        if path_eq(files[i].as_str(), place) {
            return true;
        }
        i += 1;
    }
    false
}

/// See [`files_of`].
pub fn distinct_files(hits: &Vec<ProjectHit>) -> (files: Vec<String>)
    ensures
        files@ == files_of(hits@),
{
    let mut files: Vec<String> = Vec::new();
    let mut i: usize = 0;
    assert(hits@.take(0) =~= Seq::empty());
    while i < hits.len()
        invariant
            i <= hits@.len(),
            files@ == files_of(hits@.take(i as int)),
        decreases hits@.len() - i,
    {
        assert(hits@.take(i + 1).drop_last() =~= hits@.take(i as int));
        if !names_file(&files, hits[i].path.as_str()) {
            files.push(hits[i].path.clone());
        }
        i += 1;
    }
    assert(hits@.take(hits@.len() as int) =~= hits@);
    files
}

/// No file is listed twice, and every result's file is listed.
pub proof fn every_file_once(hits: Seq<ProjectHit>)
    ensures
        forall|i: int, j: int|
            0 <= i < j < files_of(hits).len() ==> !path::same_path(
                (#[trigger] files_of(hits)[i])@,
                (#[trigger] files_of(hits)[j])@,
            ),
        forall|k: int|
            0 <= k < hits.len() ==> exists|i: int|
                0 <= i < files_of(hits).len() && path::same_path(
                    (#[trigger] files_of(hits)[i])@,
                    (#[trigger] hits[k]).path@,
                ),
        hits.len() > 0 ==> files_of(hits).len() > 0,
    decreases hits.len(),
{
    if hits.len() > 0 {
        let shorter = hits.drop_last();
        every_file_once(shorter);
        let head = files_of(shorter);
        let all = files_of(hits);
        assert(forall|i: int| 0 <= i < head.len() ==> all[i] == head[i]);
        assert forall|k: int| 0 <= k < hits.len() implies exists|i: int|
            0 <= i < all.len() && path::same_path(
                (#[trigger] all[i])@,
                (#[trigger] hits[k]).path@,
            ) by {
            if k < shorter.len() {
                assert(shorter[k] == hits[k]);
                let i = choose|i: int|
                    0 <= i < head.len() && path::same_path(
                        (#[trigger] head[i])@,
                        shorter[k].path@,
                    );
                assert(path::same_path(all[i]@, hits[k].path@));
            } else if all.len() > head.len() {
                assert(path::same_path(all[head.len() as int]@, hits[k].path@));
            } else {
                let i = choose|i: int|
                    0 <= i < head.len() && path::same_path(
                        (#[trigger] head[i])@,
                        hits.last().path@,
                    );
                assert(path::same_path(all[i]@, hits[k].path@));
            }
        }
    }
}

/// The question before replacing in files: `matches` in `files` of them.
pub open spec fn replace_question_text(matches: int, files: int) -> Seq<char> {
    "Replace "@ + text::decimal_digits(matches as nat) + " match"@ + (if matches == 1 {
        ""@
    } else {
        "es"@
    }) + " in "@ + text::decimal_digits(files as nat) + " file"@ + text::plural(files) + "?"@
}

/// Whether `question` is the one before replacing in files. The first button
/// replaces.
pub open spec fn is_replace_question(question: Question, matches: int, files: int) -> bool {
    &&& question.message@ == replace_question_text(matches, files)
    &&& question.detail@
        == "Open files are changed in their tabs and can be undone there. Files that are not open are saved to disk."@
    &&& path::texts(question.buttons@) == seq!["Replace"@, "Cancel"@]
}

/// See [`is_replace_question`].
pub fn replace_question(matches: usize, files: usize) -> (question: Question)
    ensures
        is_replace_question(question, matches as int, files as int),
{
    let n = decimal(matches);
    let m = decimal(files);
    let mut message: String = joined3("Replace ", n.as_str(), " match");
    message.append(
        if matches == 1 {
            ""
        } else {
            "es"
        },
    );
    message.append(" in ");
    message.append(m.as_str());
    message.append(" file");
    message.append(plural_ending(files));
    message.append("?");
    let mut buttons: Vec<String> = Vec::new();
    buttons.push("Replace".to_owned());
    buttons.push("Cancel".to_owned());
    assert(path::texts(buttons@) =~= seq!["Replace"@, "Cancel"@]);
    Question {
        message,
        detail: "Open files are changed in their tabs and can be undone there. Files that are not open are saved to disk.".to_owned(),
        buttons,
    }
}

/// The names of `files` that have one, with commas between them.
pub open spec fn named(files: Seq<String>) -> Seq<char>
    decreases files.len(),
{
    if files.len() == 0 {
        Seq::empty()
    } else {
        let head = named(files.drop_last());
        match path::file_name_of(files.last()@) {
            None => head,
            Some(name) => if head.len() == 0 {
                name
            } else {
                head + ", "@ + name
            },
        }
    }
}

/// See [`named`].
pub fn name_list(files: &Vec<String>) -> (s: String)
    ensures
        s@ == named(files@),
{
    let mut s: String = String::new();
    let mut i: usize = 0;
    assert(files@.take(0) =~= Seq::empty());
    assert(s@ =~= Seq::empty());
    while i < files.len()
        invariant
            i <= files@.len(),
            s@ == named(files@.take(i as int)),
        decreases files@.len() - i,
    {
        assert(files@.take(i + 1).drop_last() =~= files@.take(i as int));
        match file_name(files[i].as_str()) {
            Some(name) => {
                if s.as_str().is_empty() {
                    s = name;
                } else {
                    s.append(", ");
                    s.append(name.as_str());
                }
            },
            None => {},
        }
        i += 1;
    }
    assert(files@.take(files@.len() as int) =~= files@);
    s
}

/// The ids of `touched`, all stamped `now`.
pub open spec fn stamped(map: Map<u64, u64>, touched: Seq<u64>, now: u64) -> Map<u64, u64>
    decreases touched.len(),
{
    if touched.len() == 0 {
        map
    } else {
        stamped(map, touched.drop_last(), now).insert(touched.last(), now)
    }
}

/// Stamps every id in `touched`.
pub fn stamp_all(table: &mut Table<u64>, touched: &Vec<u64>, now: u64)
    requires
        old(table).wf(),
    ensures
        final(table).wf(),
        final(table)@ == stamped(old(table)@, touched@, now),
{
    let mut i: usize = 0;
    assert(touched@.take(0) =~= Seq::empty());
    while i < touched.len()
        invariant
            table.wf(),
            i <= touched@.len(),
            table@ == stamped(old(table)@, touched@.take(i as int), now),
        decreases touched@.len() - i,
    {
        assert(touched@.take(i + 1).drop_last() =~= touched@.take(i as int));
        table.insert(touched[i], now);
        i += 1;
    }
    assert(touched@.take(touched@.len() as int) =~= touched@);
}

/// What replacing in the project works on.
pub struct ReplacePlan {
    pub files: Vec<String>,
    /// What is asked first, except in a scripted run.
    pub question: Option<Question>,
}

/// Whether `plan` is to replace what `bar` lists.
pub open spec fn is_plan_for(plan: ReplacePlan, bar: FindBar, testing: bool) -> bool {
    &&& plan.files@ == files_of(bar.results@)
    &&& plan.question is None == testing
    &&& plan.question matches Some(question) ==> is_replace_question(
        question,
        bar.results@.len() as int,
        files_of(bar.results@).len() as int,
    )
}

/// What is said when there is nothing to replace in.
pub open spec fn search_first() -> Seq<char> {
    "search the project first; Replace All uses its results"@
}

/// What is said when the results were cut.
pub open spec fn too_many() -> Seq<char> {
    "over 500 matches: narrow the search before replacing"@
}

impl State {
    /// The state with a search of the project under way for `find`.
    pub open spec fn searching_for(self, find: Option<FindBar>) -> State {
        State { project: Project { searching: true, ..self.project }, ..self.with_find(find) }
    }

    /// The state with other stamps for the servers.
    pub open spec fn with_server_stamps(self, dirty: Table<u64>) -> State {
        State { servers: Servers { dirty, ..self.servers }, ..self }
    }
}

impl FindBar {
    /// The bar with its results gone and its list back at the top.
    pub open spec fn is_cleared(&self, before: FindBar, searching: bool) -> bool {
        &&& self.results@.len() == 0
        &&& *self == (FindBar {
            results: self.results,
            selected: 0,
            result_scroll: 0,
            searching,
            ..before
        })
    }
}

impl EditorView {
    /// Starts searching the project for the query. `valid` is whether the
    /// query can be searched for at all.
    pub fn search_project(&mut self, valid: &Result<(), String>, now: u64)
        requires
            old(self).state.wf(),
        ensures
            final(self).state.wf(),
            match (old(self).state.fields.find, old(self).state.side.tree.root) {
                (Some(bar), Some(_)) => if bar.query.text@.len() == 0 {
                    *final(self) == *old(self)
                } else {
                    match valid {
                        Err(error) => final(self).complains(
                            *old(self),
                            old(self).state,
                            Seq::empty(),
                            error@,
                            now,
                        ),
                        Ok(_) => {
                            &&& final(self).state.fields.find matches Some(after)
                                && after.is_cleared(bar, true)
                            &&& final(self).shows(
                                *old(self),
                                old(self).state.searching_for(final(self).state.fields.find),
                                old(self).state.cancelling().push(Effect::SearchProject),
                                now,
                            )
                        },
                    }
                },
                _ => *final(self) == *old(self),
            },
    {
        let empty = match &self.state.fields.find {
            Some(bar) => bar.query.text.as_str().is_empty(),
            None => true,
        };
        if empty || self.state.side.tree.root.is_none() {
            return;
        }
        if let Err(error) = valid {
            self.say(joined("invalid regex: ", error.as_str()), now);
            assert(self.effects@ =~= old(self).effects@ + Seq::<Effect>::empty());
            return;
        }
        if self.state.project.searching {
            self.ask(Effect::CancelProjectSearch);
        }
        self.ask(Effect::SearchProject);
        let ghost done = old(self).state.cancelling().push(Effect::SearchProject);
        assert(self.effects@ =~= old(self).effects@ + done);
        self.state.project.searching = true;
        if let Some(bar) = &mut self.state.fields.find {
            bar.results.clear();
            bar.selected = 0;
            bar.result_scroll = 0;
            bar.searching = true;
        }
        self.show(now);
        assert(self.effects@ =~= old(self).effects@ + (done + old(self).pumping(now)));
    }

    /// Takes a project search's answer.
    pub fn poll_project_search(
        &mut self,
        answer: Answer<Result<Vec<ProjectHit>, String>>,
        now: u64,
    )
        requires
            old(self).state.wf(),
        ensures
            final(self).state.wf(),
            !old(self).state.project.searching || answer is Waiting ==> *final(self) == *old(
                self,
            ),
            old(self).state.project.searching ==> match (answer, old(self).state.fields.find) {
                (Answer::Waiting, _) => true,
                (_, None) => final(self).marks(
                    *old(self),
                    old(self).state.not_searching(),
                    Seq::empty(),
                ),
                (Answer::Stopped, Some(bar)) => final(self).search_failed(
                    *old(self),
                    bar,
                    "project search stopped"@,
                    now,
                ),
                (Answer::Came(Err(error)), Some(bar)) => final(self).search_failed(
                    *old(self),
                    bar,
                    error@,
                    now,
                ),
                (Answer::Came(Ok(results)), Some(bar)) => {
                    &&& final(self).state.says(found_note(results@.len() as int), now)
                    &&& final(self).marks(
                        *old(self),
                        old(self).state.not_searching().with_find(
                            Some(
                                FindBar {
                                    results,
                                    selected: 0,
                                    result_scroll: 0,
                                    searching: false,
                                    ..bar
                                },
                            ),
                        ).saying(final(self).state.status.message->0),
                        Seq::empty(),
                    )
                },
            },
    {
        if !self.state.project.searching {
            return;
        }
        match answer {
            Answer::Waiting => {
                return;
            },
            Answer::Stopped => {
                self.fail_search("project search stopped", now);
            },
            Answer::Came(Err(error)) => {
                self.fail_search(error.as_str(), now);
            },
            Answer::Came(Ok(results)) => {
                self.state.project.searching = false;
                if self.state.fields.find.is_some() {
                    self.take_results(results, now);
                }
                self.request_redraw();
            },
        }
    }

    /// Ends the search, and says why in the status line, if anybody still
    /// waits.
    fn fail_search(&mut self, reason: &str, now: u64)
        ensures
            old(self).state.wf() ==> final(self).state.wf(),
            match old(self).state.fields.find {
                None => final(self).marks(
                    *old(self),
                    old(self).state.not_searching(),
                    Seq::empty(),
                ),
                Some(bar) => final(self).search_failed(*old(self), bar, reason@, now),
            },
    {
        self.state.project.searching = false;
        if self.state.fields.find.is_some() {
            if let Some(bar) = &mut self.state.fields.find {
                bar.searching = false;
            }
            self.say(joined("project search: ", reason), now);
        }
        self.request_redraw();
    }

    /// This is `before` with the search behind `bar` failed for `reason`.
    pub open spec fn search_failed(
        &self,
        before: EditorView,
        bar: FindBar,
        reason: Seq<char>,
        now: u64,
    ) -> bool {
        &&& self.state.says("project search: "@ + reason, now)
        &&& self.marks(
            before,
            before.state.not_searching().with_find(
                Some(FindBar { searching: false, ..bar }),
            ).saying(self.state.status.message->0),
            Seq::empty(),
        )
    }

    /// Puts a search's results into the find bar.
    fn take_results(&mut self, results: Vec<ProjectHit>, now: u64)
        requires
            old(self).state.fields.find is Some,
        ensures
            final(self).state.says(found_note(results@.len() as int), now),
            final(self).becomes(
                *old(self),
                old(self).state.with_find(
                    Some(
                        FindBar {
                            results,
                            selected: 0,
                            result_scroll: 0,
                            searching: false,
                            ..old(self).state.fields.find->0
                        },
                    ),
                ).saying(final(self).state.status.message->0),
                Seq::empty(),
            ),
    {
        let note = found_text(results.len());
        if let Some(bar) = &mut self.state.fields.find {
            bar.searching = false;
            bar.results = results;
            bar.selected = 0;
            bar.result_scroll = 0;
        }
        self.say(note, now);
        assert(self.effects@ =~= old(self).effects@ + Seq::<Effect>::empty());
    }

    /// Opens result `index` of a project search: its file, with the match
    /// selected.
    pub fn open_project_result(&mut self, index: usize, now: u64)
        ensures
            old(self).state.wf() ==> final(self).state.wf(),
            match old(self).state.fields.find {
                Some(bar) => if index < bar.results@.len() {
                    let hit = bar.results@[index as int];
                    final(self).shows(
                        *old(self),
                        old(self).state,
                        seq![
                            Effect::LoadPath(hit.path),
                            Effect::SelectInActive(hit.start, hit.end),
                            Effect::SyncTitle,
                            Effect::Run(Task::Reparse),
                        ],
                        now,
                    )
                } else {
                    *final(self) == *old(self)
                },
                None => *final(self) == *old(self),
            },
    {
        let target: Option<(String, usize, usize)> = match &self.state.fields.find {
            Some(bar) => if index < bar.results.len() {
                let hit = &bar.results[index];
                Some((hit.path.clone(), hit.start, hit.end))
            } else {
                None
            },
            None => None,
        };
        if let Some((path, start, end)) = target {
            let ghost kept = path;
            self.effects.push(Effect::LoadPath(path));
            self.effects.push(Effect::SelectInActive(start, end));
            self.effects.push(Effect::SyncTitle);
            self.effects.push(Effect::Run(Task::Reparse));
            let ghost done = seq![
                Effect::LoadPath(kept),
                Effect::SelectInActive(start, end),
                Effect::SyncTitle,
                Effect::Run(Task::Reparse),
            ];
            assert(self.effects@ =~= old(self).effects@ + done);
            self.show(now);
            assert(self.effects@ =~= old(self).effects@ + (done + old(self).pumping(now)));
        }
    }

    /// Replace All in project mode: what it will work on, or why not.
    ///
    /// Refused when the results were cut at the limit, since files past the
    /// cut would be missed. Asked about first, except in a scripted run.
    pub fn replace_in_project(&mut self, now: u64) -> (plan: Option<ReplacePlan>)
        requires
            old(self).state.wf(),
        ensures
            final(self).state.wf(),
            match old(self).state.fields.find {
                None => plan is None && *final(self) == *old(self),
                Some(bar) => if bar.query.text@.len() == 0 || bar.results@.len() == 0 {
                    &&& plan is None
                    &&& final(self).state.says(search_first(), now)
                    &&& final(self).marks(
                        *old(self),
                        old(self).state.saying(final(self).state.status.message->0),
                        Seq::empty(),
                    )
                } else if bar.results@.len() >= SEARCH_LIMIT {
                    &&& plan is None
                    &&& final(self).state.says(too_many(), now)
                    &&& final(self).marks(
                        *old(self),
                        old(self).state.saying(final(self).state.status.message->0),
                        Seq::empty(),
                    )
                } else {
                    &&& plan matches Some(plan) && is_plan_for(plan, bar, old(self).ivars.testing)
                    &&& *final(self) == *old(self)
                },
            },
    {
        let (empty, files, matches) = match &self.state.fields.find {
            None => {
                return None;
            },
            Some(bar) => (
                bar.query.text.as_str().is_empty(),
                distinct_files(&bar.results),
                bar.results.len(),
            ),
        };
        proof {
            every_file_once(old(self).state.fields.find->0.results@);
        }
        if empty || matches == 0 {
            self.say(
                "search the project first; Replace All uses its results".to_owned(),
                now,
            );
            self.request_redraw();
            return None;
        }
        if matches >= SEARCH_LIMIT {
            self.say("over 500 matches: narrow the search before replacing".to_owned(), now);
            self.request_redraw();
            return None;
        }
        let question = if self.ivars.testing {
            None
        } else {
            Some(replace_question(matches, files.len()))
        };
        Some(ReplacePlan { files, question })
    }
}

/// How many matches a search found, as the status line says it.
pub open spec fn found_note(count: int) -> Seq<char> {
    text::decimal_digits(count as nat) + " project matches"@ + (if count == SEARCH_LIMIT {
        " (first 500)"@
    } else {
        ""@
    })
}

/// See [`found_note`].
fn found_text(count: usize) -> (s: String)
    ensures
        s@ == found_note(count as int),
{
    let n = decimal(count);
    joined3(
        n.as_str(),
        " project matches",
        if count == SEARCH_LIMIT {
            " (first 500)"
        } else {
            ""
        },
    )
}

/// Files over 2 MiB are skipped: every match is in a smaller one.
pub proof fn large_files_are_not_searched(files: Seq<SearchedFile>, n: int, i: int)
    requires
        0 <= n <= files.len(),
        0 <= i < places_in(files, n).len(),
    ensures
        0 <= places_in(files, n)[i].0 < n,
        files[places_in(files, n)[i].0].bytes matches Some(bytes) && bytes <= 2 * 1024 * 1024,
    decreases n,
{
    if n > 0 {
        let head = places_in(files, n - 1);
        if i < head.len() {
            large_files_are_not_searched(files, n - 1, i);
            assert(places_in(files, n)[i] == head[i]);
        }
    }
}

} // verus!
