//! What the rule being typed into an ignore file would hide.

use crate::buffer::{self, line_end, line_start, slice_of, Buffer};
use crate::completion::CompletionPopup;
use crate::path::{self, parent, path_ends_in, strip_prefix};
use crate::sidebar::TreeEntry;
use crate::text::{self, joined, read};
use vstd::prelude::*;
use vstd::string::*;

verus! {

/// A rule, and the folder it is written for.
pub struct IgnorePreview {
    pub rule: String,
    pub base: String,
}

/// A row of the tree and its path from the rule's folder, which the rule is
/// held against.
pub struct RowPath {
    pub row: usize,
    pub relative: String,
}

/// The text of a document from `start` to `end`.
pub open spec fn part_of(b: Buffer, start: int, end: int) -> Seq<char> {
    text::readable(b.text@.subrange(start, end))
}

/// Whether `popup` completes a path in `b`.
pub open spec fn completes_path(popup: Option<CompletionPopup>, b: Buffer) -> bool {
    popup matches Some(popup) && popup.buffer == b.id && popup.path
}

/// The rule on the caret's line, with the picked suggestion in place of what
/// is typed.
pub open spec fn rule_at_caret(b: Buffer, popup: Option<CompletionPopup>) -> Seq<char> {
    let start = buffer::line_start_at(b.text@, b.cursor as int);
    let end = buffer::line_end_at(b.text@, b.cursor as int);
    if completes_path(popup, b) && popup->0.selected < popup->0.shown@.len() && b.within(
        popup->0.anchor,
    ) >= start {
        part_of(b, start, b.within(popup->0.anchor) as int) + popup->0.shown@[popup->0.selected as int].insert@
    } else {
        part_of(b, start, end)
    }
}

/// The folder that the rules of the ignore file `place` are written for.
pub open spec fn rules_base(place: Seq<char>) -> Option<Seq<char>> {
    if path::ends_in(place, ".git/info/exclude"@) {
        match path::parent_of(place) {
            Some(info) => match path::parent_of(info) {
                Some(git) => path::parent_of(git),
                None => None,
            },
            None => None,
        }
    } else {
        path::parent_of(place)
    }
}

/// See [`rules_base`].
fn base_of(place: &str) -> (base: Option<String>)
    ensures
        match (base, rules_base(place@)) {
            (Some(base), Some(text)) => base@ == text,
            (None, None) => true,
            _ => false,
        },
{
    if path_ends_in(place, ".git/info/exclude") {
        match parent(place) {
            Some(info) => match parent(info.as_str()) {
                Some(git) => parent(git.as_str()),
                None => None,
            },
            None => None,
        }
    } else {
        parent(place)
    }
}

/// The folder of the rule at the caret, while an ignore file is being edited.
pub open spec fn preview_base(
    b: Buffer,
    popup: Option<CompletionPopup>,
    ignore_file: bool,
) -> Option<Seq<char>> {
    match b.path {
        Some(place) => if ignore_file && (b.dirty || completes_path(popup, b)) {
            rules_base(place@)
        } else {
            None
        },
        None => None,
    }
}

/// While an ignore file is being edited: the rule at the caret, with the
/// picked suggestion in place of what is typed, so the tree can show the
/// effect before the file is saved. `ignore_file` is whether the document is
/// such a file.
pub fn ignore_preview(b: &Buffer, popup: &Option<CompletionPopup>, ignore_file: bool) -> (
preview: Option<IgnorePreview>)
    requires
        b.wf(),
    ensures
        match (preview, preview_base(*b, *popup, ignore_file)) {
            (Some(preview), Some(base)) => {
                &&& preview.rule@ == rule_at_caret(*b, *popup)
                &&& preview.base@ == base
            },
            (None, None) => true,
            _ => false,
        },
{
    let place = match &b.path {
        Some(place) => place,
        None => {
            return None;
        },
    };
    let open = match popup {
        Some(popup) => popup.buffer == b.id && popup.path,
        None => false,
    };
    if !ignore_file || (!b.dirty && !open) {
        return None;
    }
    let base = match base_of(place.as_str()) {
        Some(base) => base,
        None => {
            return None;
        },
    };
    let start = line_start(&b.text, b.cursor);
    let end = line_end(&b.text, b.cursor);
    if open {
        if let Some(popup) = popup {
            let anchor = if popup.anchor <= b.text.len() {
                popup.anchor
            } else {
                b.text.len()
            };
            if popup.selected < popup.shown.len() && anchor >= start {
                let typed = read(&slice_of(&b.text, start, anchor));
                let rule = joined(typed.as_str(), popup.shown[popup.selected].insert.as_str());
                return Some(IgnorePreview { rule, base });
            }
        }
    }
    let rule = read(&slice_of(&b.text, start, end));
    Some(IgnorePreview { rule, base })
}

/// The rows of the tree below `base`, with their paths from there.
pub open spec fn is_row_path(r: RowPath, rows: Seq<TreeEntry>, base: Seq<char>) -> bool {
    &&& r.row < rows.len()
    &&& path::is_within(rows[r.row as int].path@, base)
    &&& r.relative@ == path::spelled(
        path::components(rows[r.row as int].path@).skip(path::components(base).len() as int),
    )
}

/// The numbers of the rows below `base`, in their order.
pub open spec fn below(rows: Seq<TreeEntry>, base: Seq<char>) -> Seq<usize>
    decreases rows.len(),
{
    if rows.len() == 0 {
        Seq::empty()
    } else {
        let head = below(rows.drop_last(), base);
        if path::is_within(rows.last().path@, base) {
            head.push((rows.len() - 1) as usize)
        } else {
            head
        }
    }
}

/// The numbers of the rows that `paths` are about.
pub open spec fn numbers(paths: Seq<RowPath>) -> Seq<usize> {
    paths.map_values(|r: RowPath| r.row)
}

/// Which rows of the tree a rule of `base` can be about.
pub fn rows_below(rows: &Vec<TreeEntry>, base: &str) -> (found: Vec<RowPath>)
    ensures
        numbers(found@) == below(rows@, base@),
        forall|i: int| 0 <= i < found@.len() ==> is_row_path(#[trigger] found@[i], rows@, base@),
        forall|i: int, j: int|
            0 <= i < j < found@.len() ==> (#[trigger] found@[i]).row < (#[trigger] found@[j]).row,
        forall|r: int|
            0 <= r < rows@.len() && path::is_within((#[trigger] rows@[r]).path@, base@)
                ==> exists|i: int| 0 <= i < found@.len() && (#[trigger] found@[i]).row == r,
{
    let mut found: Vec<RowPath> = Vec::new();
    let mut i: usize = 0;
    assert(rows@.take(0) =~= Seq::empty());
    assert(numbers(found@) =~= below(rows@.take(0), base@));
    while i < rows.len()
        invariant
            i <= rows@.len(),
            numbers(found@) == below(rows@.take(i as int), base@),
            forall|k: int|
                0 <= k < found@.len() ==> is_row_path(#[trigger] found@[k], rows@, base@)
                    && found@[k].row < i,
            forall|k: int, j: int|
                0 <= k < j < found@.len() ==> (#[trigger] found@[k]).row < (
                #[trigger] found@[j]).row,
            forall|r: int|
                0 <= r < i && path::is_within((#[trigger] rows@[r]).path@, base@)
                    ==> exists|k: int| 0 <= k < found@.len() && (#[trigger] found@[k]).row == r,
        decreases rows@.len() - i,
    {
        let ghost before = found@;
        assert(rows@.take(i + 1).drop_last() =~= rows@.take(i as int));
        if let Some(relative) = strip_prefix(rows[i].path.as_str(), base) {
            found.push(RowPath { row: i, relative });
            assert(found@[before.len() as int].row == i);
            assert(forall|k: int| 0 <= k < before.len() ==> found@[k] == before[k]);
            assert(numbers(found@) =~= numbers(before).push(i));
        }
        proof {
            assert forall|r: int|
                0 <= r < i + 1 && path::is_within((#[trigger] rows@[r]).path@, base@) implies exists|
                k: int,
            | 0 <= k < found@.len() && (#[trigger] found@[k]).row == r by {
                if r < i {
                    let k = choose|k: int| 0 <= k < before.len() && (#[trigger] before[k]).row == r;
                    assert(found@[k].row == r);
                }
            }
        }
        i += 1;
    }
    assert(rows@.take(rows@.len() as int) =~= rows@);
    found
}

/// Whether the rule matches the row that is `k`th below its folder. What is no
/// rule matches nothing.
pub open spec fn is_matched(matched: Option<Vec<bool>>, k: int) -> bool {
    matched matches Some(matched) && 0 <= k < matched@.len() && matched@[k]
}

/// The paths of the rows `numbers` of the tree that the rule matches.
pub open spec fn picked(
    rows: Seq<TreeEntry>,
    numbers: Seq<usize>,
    matched: Option<Vec<bool>>,
) -> Seq<String>
    decreases numbers.len(),
{
    if numbers.len() == 0 {
        Seq::empty()
    } else {
        let head = picked(rows, numbers.drop_last(), matched);
        if is_matched(matched, numbers.len() - 1) && numbers.last() < rows.len() {
            head.push(rows[numbers.last() as int].path)
        } else {
            head
        }
    }
}

/// The paths of the rows `below` the rule's folder that the rule matches:
/// what it would hide. `matched` says which it matches, in their order; it is
/// nothing when the line is no rule, and then nothing would be hidden.
pub fn previewed(
    rows: &Vec<TreeEntry>,
    below: &Vec<RowPath>,
    matched: &Option<Vec<bool>>,
) -> (hidden: Vec<String>)
    ensures
        hidden@ == picked(rows@, numbers(below@), *matched),
{
    let mut hidden: Vec<String> = Vec::new();
    let mut i: usize = 0;
    let ghost all = numbers(below@);
    assert(all.take(0) =~= Seq::empty());
    while i < below.len()
        invariant
            i <= below@.len(),
            all == numbers(below@),
            hidden@ == picked(rows@, all.take(i as int), *matched),
        decreases below@.len() - i,
    {
        assert(all.take(i + 1).drop_last() =~= all.take(i as int));
        let hit = match matched {
            Some(matched) => i < matched.len() && matched[i],
            None => false,
        };
        if hit && below[i].row < rows.len() {
            hidden.push(rows[below[i].row].path.clone());
        }
        i += 1;
    }
    assert(all.take(all.len() as int) =~= all);
    hidden
}

/// What the rule at the caret of `b` would hide, while an ignore file is being
/// edited.
pub open spec fn hidden_paths(
    b: Buffer,
    popup: Option<CompletionPopup>,
    ignore_file: bool,
    rows: Seq<TreeEntry>,
    matched: Option<Vec<bool>>,
) -> Seq<String> {
    match preview_base(b, popup, ignore_file) {
        Some(base) => picked(rows, below(rows, base), matched),
        None => Seq::empty(),
    }
}

/// See [`hidden_paths`].
pub fn paths_hidden(
    b: &Buffer,
    popup: &Option<CompletionPopup>,
    ignore_file: bool,
    rows: &Vec<TreeEntry>,
    matched: &Option<Vec<bool>>,
) -> (hidden: Vec<String>)
    requires
        b.wf(),
    ensures
        hidden@ == hidden_paths(*b, *popup, ignore_file, rows@, *matched),
{
    match ignore_preview(b, popup, ignore_file) {
        Some(preview) => {
            let below = rows_below(rows, preview.base.as_str());
            previewed(rows, &below, matched)
        },
        None => Vec::new(),
    }
}

/// What would be hidden is exactly what the rule matches: nothing else, and all
/// of it.
pub proof fn a_preview_hides_what_the_rule_matches(
    rows: Seq<TreeEntry>,
    numbers: Seq<usize>,
    matched: Option<Vec<bool>>,
)
    ensures
        forall|place: String|
            #![trigger picked(rows, numbers, matched).contains(place)]
            picked(rows, numbers, matched).contains(place) <==> exists|k: int|
                #![trigger numbers[k]]
                0 <= k < numbers.len() && is_matched(matched, k) && numbers[k] < rows.len()
                    && rows[numbers[k] as int].path == place,
        matched is None ==> picked(rows, numbers, matched).len() == 0,
    decreases numbers.len(),
{
    if numbers.len() > 0 {
        let head = numbers.drop_last();
        a_preview_hides_what_the_rule_matches(rows, head, matched);
        let before = picked(rows, head, matched);
        let all = picked(rows, numbers, matched);
        assert forall|place: String| #![trigger all.contains(place)]
            all.contains(place) <==> exists|k: int|
                #![trigger numbers[k]]
                0 <= k < numbers.len() && is_matched(matched, k) && numbers[k] < rows.len()
                    && rows[numbers[k] as int].path == place by {
            let last = numbers.len() - 1;
            if all.contains(place) {
                let j = choose|j: int| 0 <= j < all.len() && all[j] == place;
                if j < before.len() {
                    assert(before[j] == place);
                    assert(before.contains(place));
                    let k = choose|k: int|
                        #![trigger head[k]]
                        0 <= k < head.len() && is_matched(matched, k) && head[k] < rows.len()
                            && rows[head[k] as int].path == place;
                    assert(numbers[k] == head[k]);
                } else {
                    assert(numbers[last] < rows.len());
                }
            }
            if exists|k: int|
                #![trigger numbers[k]]
                0 <= k < numbers.len() && is_matched(matched, k) && numbers[k] < rows.len()
                    && rows[numbers[k] as int].path == place {
                let k = choose|k: int|
                    #![trigger numbers[k]]
                    0 <= k < numbers.len() && is_matched(matched, k) && numbers[k] < rows.len()
                        && rows[numbers[k] as int].path == place;
                if k < last {
                    assert(head[k] == numbers[k]);
                    assert(before.contains(place));
                    let j = choose|j: int| 0 <= j < before.len() && before[j] == place;
                    assert(all[j] == place);
                } else {
                    assert(all[all.len() - 1] == place);
                }
            }
        }
    }
}

} // verus!
