//! A document as the window sees it: what it is, where its caret is and what
//! it says. Typing goes through the text engine; what the window itself
//! selects, inserts or replaces is defined here.

use crate::path;
use crate::text::same;
use vstd::prelude::*;

verus! {

/// A language with a grammar. Languages that share a server share its key.
#[derive(Clone, Copy, PartialEq, Eq, Structural, Debug)]
pub struct Language {
    pub id: u8,
    pub server: u8,
}

/// How a document indents, when something says so.
#[derive(Clone, Copy, PartialEq, Eq, Structural, Debug)]
pub struct Indent {
    pub tabs: bool,
    pub width: u32,
}

/// One open document.
pub struct Buffer {
    /// Never reused while the app runs.
    pub id: u64,
    pub path: Option<String>,
    /// The title of a tab that is not a file: a response, a review.
    pub label: Option<String>,
    /// What decides language and wrapping.
    pub extension: Option<String>,
    /// What it is shown as, when that is not what it is.
    pub display: Option<String>,
    /// The language of that extension, when there is a grammar for it.
    pub language: Option<Language>,
    /// The text, as UTF-8.
    pub text: Vec<u8>,
    /// The caret, a byte offset.
    pub cursor: usize,
    /// The other end of the selection; the caret itself when there is none.
    pub anchor: usize,
    pub dirty: bool,
    pub read_only: bool,
    /// Shown by the system's previewer rather than as text.
    pub preview_file: bool,
    /// A file requests are written in and sent from.
    pub request_file: bool,
    /// Read as Windows-1252, so not every character can be written back.
    pub windows_1252: bool,
    /// Its lines do not all end the same way.
    pub mixed_endings: bool,
    /// How it indents, when something says so.
    pub indent: Option<Indent>,
    /// Someone has been told that the file changed behind the editor.
    pub conflict_noticed: bool,
    /// The width it wraps at, when it wraps.
    pub wrap: Option<usize>,
    /// Whether it wraps, when someone said so for this document.
    pub wrap_choice: Option<bool>,
    pub scroll_row: usize,
    pub scroll_line: usize,
    /// How far the text is scrolled sideways, in columns.
    pub scroll_column: usize,
    /// Lines that are folded away, by the line they hang under.
    pub folds: Vec<usize>,
    /// How wide its tab is, in hundredths of a point, as last measured.
    pub tab_width: i32,
}

/// A one-row text: a query, a name, a line number.
pub struct Field {
    pub text: String,
    /// Caret and the other end of the selection, in bytes.
    pub cursor: usize,
    pub anchor: usize,
}

/// An edit: what goes in place of the bytes from `start` to `end`.
pub struct Edit {
    pub start: usize,
    pub end: usize,
    pub with: Vec<u8>,
}

/// The byte a newline is.
pub const NEWLINE: u8 = 10;

/// How many newlines `text` has.
pub open spec fn newlines(text: Seq<u8>) -> nat
    decreases text.len(),
{
    if text.len() == 0 {
        0
    } else {
        newlines(text.drop_last()) + (if text.last() == NEWLINE {
            1nat
        } else {
            0nat
        })
    }
}

/// The line `offset` is on, counted from zero.
pub open spec fn line_at(text: Seq<u8>, offset: int) -> nat {
    newlines(text.take(offset))
}

/// Where the line that `offset` is on starts.
pub open spec fn line_start_at(text: Seq<u8>, offset: int) -> int
    decreases offset,
{
    if offset <= 0 || text[offset - 1] == NEWLINE {
        offset
    } else {
        line_start_at(text, offset - 1)
    }
}

/// Where the line that `offset` is on ends, before its newline.
pub open spec fn line_end_at(text: Seq<u8>, offset: int) -> int
    decreases text.len() - offset,
{
    if offset >= text.len() || text[offset] == NEWLINE {
        offset
    } else {
        line_end_at(text, offset + 1)
    }
}

/// Where line `n` starts; the last line when there are fewer.
pub open spec fn line_offset(text: Seq<u8>, n: nat) -> int
    decreases text.len(),
{
    if text.len() == 0 || n == 0 {
        0
    } else if text.last() == NEWLINE && newlines(text) <= n {
        text.len() as int
    } else {
        line_offset(text.drop_last(), n)
    }
}

/// Newlines are counted one by one, wherever they are.
pub proof fn newlines_add_up(a: Seq<u8>, b: Seq<u8>)
    ensures
        newlines(a + b) == newlines(a) + newlines(b),
        forall|c: u8| #[trigger] newlines(seq![c]) == if c == 10 {
            1nat
        } else {
            0nat
        },
    decreases b.len(),
{
    assert forall|c: u8| #[trigger] newlines(seq![c]) == if c == 10 {
        1nat
    } else {
        0nat
    } by {
        assert(seq![c].drop_last() =~= Seq::<u8>::empty());
        reveal_with_fuel(newlines, 2);
    }
    if b.len() == 0 {
        assert(a + b =~= a);
    } else {
        newlines_add_up(a, b.drop_last());
        assert((a + b).drop_last() =~= a + b.drop_last());
    }
}

/// A line starts at the beginning of the text or right after a newline, and
/// there is none between there and `offset`.
pub proof fn a_line_starts_after_a_newline(text: Seq<u8>, offset: int)
    requires
        0 <= offset <= text.len(),
    ensures
        ({
            let start = line_start_at(text, offset);
            &&& 0 <= start <= offset
            &&& start > 0 ==> text[start - 1] == 10
            &&& forall|k: int| start <= k < offset ==> #[trigger] text[k] != 10
        }),
    decreases offset,
{
    if offset > 0 && text[offset - 1] != NEWLINE {
        a_line_starts_after_a_newline(text, offset - 1);
    }
}

/// A line ends at the end of the text or right before a newline, and there is
/// none between `offset` and there.
pub proof fn a_line_ends_before_a_newline(text: Seq<u8>, offset: int)
    requires
        0 <= offset <= text.len(),
    ensures
        ({
            let end = line_end_at(text, offset);
            &&& offset <= end <= text.len()
            &&& end < text.len() ==> text[end] == 10
            &&& forall|k: int| offset <= k < end ==> #[trigger] text[k] != 10
        }),
    decreases text.len() - offset,
{
    if offset < text.len() && text[offset] != NEWLINE {
        a_line_ends_before_a_newline(text, offset + 1);
    }
}

/// A line is found by its number: as many newlines come before it as its
/// number says, the last of them right before it. Past the last line, the last
/// is found.
pub proof fn a_line_is_found_by_its_number(text: Seq<u8>, n: nat)
    ensures
        ({
            let at = line_offset(text, n);
            &&& 0 <= at <= text.len()
            &&& at > 0 ==> text[at - 1] == 10
            &&& n <= newlines(text) ==> newlines(text.take(at)) == n
            &&& n > newlines(text) ==> newlines(text.take(at)) == newlines(text)
        }),
    decreases text.len(),
{
    if text.len() > 0 && n > 0 {
        assert(text.take(text.len() as int) =~= text);
        let head = text.drop_last();
        a_line_is_found_by_its_number(head, n);
        if !(text.last() == NEWLINE && newlines(text) <= n) {
            let at = line_offset(head, n);
            assert(head.take(at) =~= text.take(at));
        }
    } else {
        assert(text.take(0) =~= Seq::<u8>::empty());
        if text.len() == 0 {
            assert(newlines(text) == 0);
        }
    }
}

/// `text` with `start..end` replaced.
pub open spec fn spliced(text: Seq<u8>, start: int, end: int, with: Seq<u8>) -> Seq<u8> {
    text.take(start) + with + text.skip(end)
}

impl Field {
    /// A field with nothing in it.
    pub fn new() -> (field: Field)
        ensures
            field.text@.len() == 0,
            field.cursor == 0,
            field.anchor == 0,
    {
        Field { text: String::new(), cursor: 0, anchor: 0 }
    }

    /// A field holding `text`, the caret after it.
    pub fn holding(text: &str) -> (field: Field)
        ensures
            field.text@ == text@,
            field.cursor == vstd::utf8::encode_utf8(text@).len(),
            field.anchor == field.cursor,
    {
        let n: usize = text.as_bytes().len();
        Field { text: text.to_owned(), cursor: n, anchor: n }
    }

    /// A field holding `text`, all of it selected.
    pub fn selected(text: &str) -> (field: Field)
        ensures
            field.text@ == text@,
            field.anchor == 0,
            field.cursor == vstd::utf8::encode_utf8(text@).len(),
    {
        Field { text: text.to_owned(), cursor: text.as_bytes().len(), anchor: 0 }
    }

    /// Whether some of it is selected.
    pub open spec fn has_selection(&self) -> bool {
        self.cursor != self.anchor
    }
}

impl Buffer {
    /// The caret and the selection lie in the text.
    pub open spec fn wf(&self) -> bool {
        &&& self.cursor <= self.text@.len()
        &&& self.anchor <= self.text@.len()
    }

    /// Where the selection starts; the caret when there is none.
    pub open spec fn selection_start(&self) -> usize {
        if self.anchor < self.cursor {
            self.anchor
        } else {
            self.cursor
        }
    }

    /// Where the selection ends; the caret when there is none.
    pub open spec fn selection_end(&self) -> usize {
        if self.anchor < self.cursor {
            self.cursor
        } else {
            self.anchor
        }
    }

    /// Whether something is selected.
    pub open spec fn has_selection(&self) -> bool {
        self.cursor != self.anchor
    }

    /// A document nobody has named or typed in yet.
    pub open spec fn is_blank(&self) -> bool {
        &&& self.path is None
        &&& self.label is None
        &&& self.extension is None
        &&& self.display is None
        &&& self.language is None
        &&& self.text@.len() == 0
        &&& self.cursor == 0
        &&& self.anchor == 0
        &&& !self.dirty
        &&& !self.read_only
        &&& !self.preview_file
        &&& !self.request_file
        &&& !self.windows_1252
        &&& self.indent is None
        &&& !self.mixed_endings
        &&& !self.conflict_noticed
        &&& self.wrap is None
        &&& self.wrap_choice is None
        &&& self.scroll_row == 0
        &&& self.scroll_line == 0
        &&& self.scroll_column == 0
        &&& self.folds@.len() == 0
        &&& self.tab_width == 0
    }

    /// An empty document.
    pub fn new(id: u64) -> (buffer: Buffer)
        ensures
            buffer.id == id,
            buffer.is_blank(),
            buffer.wf(),
    {
        Buffer {
            id,
            path: None,
            label: None,
            extension: None,
            display: None,
            language: None,
            text: Vec::new(),
            cursor: 0,
            anchor: 0,
            dirty: false,
            read_only: false,
            preview_file: false,
            request_file: false,
            windows_1252: false,
            indent: None,
            mixed_endings: false,
            conflict_noticed: false,
            wrap: None,
            wrap_choice: None,
            scroll_row: 0,
            scroll_line: 0,
            scroll_column: 0,
            folds: Vec::new(),
            tab_width: 0,
        }
    }

    /// Whether the path of this document is `place`.
    pub open spec fn is_at(&self, place: Seq<char>) -> bool {
        self.path matches Some(own) && path::same_path(own@, place)
    }

    /// Whether the path of this document is `place`.
    pub fn at_path(&self, place: &str) -> (r: bool)
        ensures
            r == self.is_at(place@),
    {
        match &self.path {
            Some(own) => path::path_eq(own.as_str(), place),
            None => false,
        }
    }

    /// Whether it is titled `title`.
    pub open spec fn is_titled(&self, title: Seq<char>) -> bool {
        self.label matches Some(own) && own@ == title
    }

    /// Whether it is titled `title`.
    pub fn has_label(&self, title: &str) -> (r: bool)
        ensures
            r == self.is_titled(title@),
    {
        match &self.label {
            Some(own) => same(own.as_str(), title),
            None => false,
        }
    }

    /// `offset`, pulled back to the end of the text.
    pub open spec fn within(&self, offset: usize) -> usize {
        if offset <= self.text.len() {
            offset
        } else {
            self.text.len()
        }
    }

    /// This document with `anchor` to `cursor` selected, the caret at
    /// `cursor`.
    pub open spec fn selecting(self, anchor: usize, cursor: usize) -> Buffer {
        Buffer { anchor: self.within(anchor), cursor: self.within(cursor), ..self }
    }

    /// Selects from `anchor` to `cursor`, with the caret at `cursor`. Offsets
    /// past the text are pulled back to its end.
    pub fn select_range(&mut self, anchor: usize, cursor: usize)
        ensures
            *final(self) == old(self).selecting(anchor, cursor),
            final(self).wf(),
    {
        let n: usize = self.text.len();
        self.anchor = if anchor <= n {
            anchor
        } else {
            n
        };
        self.cursor = if cursor <= n {
            cursor
        } else {
            n
        };
    }

    /// This is `before` with `with` in place of the bytes from `start` to
    /// `end`, and the caret after it. What is read-only stays as it is.
    pub open spec fn splices(&self, before: Buffer, start: usize, end: usize, with: Seq<u8>) -> bool {
        if before.read_only {
            *self == before
        } else {
            let caret = (start + with.len()) as usize;
            &&& self.text@ == spliced(before.text@, start as int, end as int, with)
            &&& *self == (Buffer {
                text: self.text,
                cursor: caret,
                anchor: caret,
                dirty: true,
                ..before
            })
        }
    }

    /// Replaces the bytes from `start` to `end`, unless the document is
    /// read-only. The caret goes after what was put in.
    pub fn splice(&mut self, start: usize, end: usize, with: &Vec<u8>)
        requires
            start <= end <= old(self).text@.len(),
            old(self).text@.len() + with@.len() <= usize::MAX,
        ensures
            old(self).wf() ==> final(self).wf(),
            final(self).splices(*old(self), start, end, with@),
    {
        if self.read_only {
            return;
        }
        let tail = self.text.split_off(end);
        self.text.truncate(start);
        self.text.extend_from_slice(with.as_slice());
        self.text.extend_from_slice(tail.as_slice());
        assert(self.text@ =~= spliced(old(self).text@, start as int, end as int, with@));
        self.cursor = start + with.len();
        self.anchor = self.cursor;
        self.dirty = true;
    }

    /// The line the caret is on, counted from zero.
    pub fn cursor_line(&self) -> (line: usize)
        requires
            self.wf(),
        ensures
            line == line_at(self.text@, self.cursor as int),
    {
        line_of(&self.text, self.cursor)
    }
}

/// What is put in stands where the range was, the bytes before and after it
/// stay, and the caret is right after it. A document that is read-only, and
/// everything else of one that is not, stays as it was.
pub proof fn a_splice_replaces_its_range(
    after: Buffer,
    before: Buffer,
    start: usize,
    end: usize,
    with: Seq<u8>,
)
    requires
        after.splices(before, start, end, with),
        start <= end <= before.text@.len(),
        before.text@.len() + with.len() <= usize::MAX,
    ensures
        before.read_only ==> after == before,
        !before.read_only ==> {
            &&& after.text@ == before.text@.take(start as int) + with + before.text@.skip(
                end as int,
            )
            &&& after.cursor == start + with.len()
            &&& after.anchor == start + with.len()
            &&& after.dirty
        },
        after.id == before.id,
        after.path == before.path,
{
}

/// Both ends of a selection that lie in the text are where they were put; one
/// past the end is at the end.
pub proof fn a_selection_is_where_it_was_put(b: Buffer, anchor: usize, cursor: usize)
    ensures
        anchor <= b.text@.len() ==> b.selecting(anchor, cursor).anchor == anchor,
        cursor <= b.text@.len() ==> b.selecting(anchor, cursor).cursor == cursor,
        anchor > b.text@.len() ==> b.selecting(anchor, cursor).anchor == b.text@.len(),
        cursor > b.text@.len() ==> b.selecting(anchor, cursor).cursor == b.text@.len(),
        b.selecting(anchor, cursor).text == b.text,
        b.selecting(anchor, cursor).dirty == b.dirty,
        b.selecting(anchor, cursor).id == b.id,
{
}

/// The line `offset` is on, counted from zero.
pub fn line_of(text: &Vec<u8>, offset: usize) -> (line: usize)
    requires
        offset <= text@.len(),
    ensures
        line == line_at(text@, offset as int),
        line <= offset,
{
    let mut i: usize = 0;
    let mut line: usize = 0;
    assert(text@.take(0) =~= Seq::empty());
    while i < offset
        invariant
            i <= offset <= text@.len(),
            line <= i,
            line == newlines(text@.take(i as int)),
        decreases offset - i,
    {
        assert(text@.take(i + 1).drop_last() =~= text@.take(i as int));
        if text[i] == NEWLINE {
            line += 1;
        }
        i += 1;
    }
    line
}

/// Where the line that `offset` is on starts.
pub fn line_start(text: &Vec<u8>, offset: usize) -> (start: usize)
    requires
        offset <= text@.len(),
    ensures
        start == line_start_at(text@, offset as int),
        start <= offset,
{
    let mut i: usize = offset;
    while i > 0 && text[i - 1] != NEWLINE
        invariant
            i <= offset <= text@.len(),
            line_start_at(text@, i as int) == line_start_at(text@, offset as int),
        decreases i,
    {
        i -= 1;
    }
    i
}

/// Where the line that `offset` is on ends, before its newline.
pub fn line_end(text: &Vec<u8>, offset: usize) -> (end: usize)
    requires
        offset <= text@.len(),
    ensures
        end == line_end_at(text@, offset as int),
        offset <= end <= text@.len(),
{
    let mut i: usize = offset;
    while i < text.len() && text[i] != NEWLINE
        invariant
            offset <= i <= text@.len(),
            line_end_at(text@, i as int) == line_end_at(text@, offset as int),
        decreases text@.len() - i,
    {
        i += 1;
    }
    i
}

/// See [`line_offset`].
pub fn offset_of_line(text: &Vec<u8>, n: usize) -> (at: usize)
    ensures
        at == line_offset(text@, n as nat),
        at <= text@.len(),
{
    if n == 0 {
        return 0;
    }
    let mut i: usize = 0;
    let mut line: usize = 0;
    let mut at: usize = 0;
    assert(text@.take(0) =~= Seq::empty());
    while i < text.len()
        invariant
            0 < n,
            i <= text@.len(),
            line <= i,
            line == newlines(text@.take(i as int)),
            at <= i,
            at == line_offset(text@.take(i as int), n as nat),
        decreases text@.len() - i,
    {
        assert(text@.take(i + 1).drop_last() =~= text@.take(i as int));
        if text[i] == NEWLINE {
            line += 1;
            if line <= n {
                at = i + 1;
            }
        }
        i += 1;
    }
    assert(text@.take(text@.len() as int) =~= text@);
    at
}

/// A copy of `text[start..end]`.
pub fn slice_of(text: &Vec<u8>, start: usize, end: usize) -> (part: Vec<u8>)
    requires
        start <= end <= text@.len(),
    ensures
        part@ == text@.subrange(start as int, end as int),
{
    let mut part: Vec<u8> = Vec::new();
    let mut i: usize = start;
    while i < end
        invariant
            start <= i <= end <= text@.len(),
            part@ == text@.subrange(start as int, i as int),
        decreases end - i,
    {
        assert(text@.subrange(start as int, i + 1) =~= text@.subrange(start as int, i as int).push(
            text@[i as int],
        ));
        part.push(text[i]);
        i += 1;
    }
    part
}

/// The text from `at` on with `edits` carried out, from the first to the
/// last. An edit that does not lie in what is left of the text is skipped.
pub open spec fn edited(text: Seq<u8>, edits: Seq<Edit>, at: int) -> Seq<u8>
    decreases edits.len(),
{
    if edits.len() == 0 {
        text.skip(at)
    } else if fits(text, edits[0], at) {
        text.subrange(at, edits[0].start as int) + edits[0].with@ + edited(
            text,
            edits.drop_first(),
            edits[0].end as int,
        )
    } else {
        edited(text, edits.drop_first(), at)
    }
}

/// Whether an edit lies in the text from `at` on.
pub open spec fn fits(text: Seq<u8>, edit: Edit, at: int) -> bool {
    at <= edit.start <= edit.end <= text.len()
}

/// How many of `edits` are carried out.
pub open spec fn edit_count(text: Seq<u8>, edits: Seq<Edit>, at: int) -> nat
    decreases edits.len(),
{
    if edits.len() == 0 {
        0
    } else if fits(text, edits[0], at) {
        1 + edit_count(text, edits.drop_first(), edits[0].end as int)
    } else {
        edit_count(text, edits.drop_first(), at)
    }
}

/// Carries out `edits` on `text`. Returns the new text and how many edits
/// went into it.
pub fn apply_edits(text: &Vec<u8>, edits: &Vec<Edit>) -> (r: (Vec<u8>, usize))
    ensures
        r.0@ == edited(text@, edits@, 0),
        r.1 == edit_count(text@, edits@, 0),
        r.1 <= edits@.len(),
        in_order(text@, edits@, 0) ==> r.1 == edits@.len() && holds_edits(r.0@, text@, edits@, 0),
{
    let mut out: Vec<u8> = Vec::new();
    let mut count: usize = 0;
    let mut at: usize = 0;
    let mut i: usize = 0;
    assert(edits@.skip(0) =~= edits@);
    while i < edits.len()
        invariant
            i <= edits@.len(),
            at <= text@.len(),
            count <= i,
            out@ + edited(text@, edits@.skip(i as int), at as int) == edited(text@, edits@, 0),
            count + edit_count(text@, edits@.skip(i as int), at as int) == edit_count(
                text@,
                edits@,
                0,
            ),
        decreases edits@.len() - i,
    {
        let ghost before = out@;
        let ghost rest = edits@.skip(i as int);
        assert(rest[0] == edits@[i as int]);
        assert(rest.drop_first() =~= edits@.skip(i + 1));
        let edit = &edits[i];
        if at <= edit.start && edit.start <= edit.end && edit.end <= text.len() {
            let kept = slice_of(text, at, edit.start);
            out.extend_from_slice(kept.as_slice());
            out.extend_from_slice(edit.with.as_slice());
            proof {
                assert(out@ =~= before + text@.subrange(at as int, edit.start as int) + edit.with@);
                let tail = edited(text@, rest.drop_first(), edit.end as int);
                assert(before + (text@.subrange(at as int, edit.start as int) + edit.with@ + tail)
                    =~= before + text@.subrange(at as int, edit.start as int) + edit.with@ + tail);
            }
            at = edit.end;
            count += 1;
        }
        i += 1;
    }
    let tail = slice_of(text, at, text.len());
    out.extend_from_slice(tail.as_slice());
    proof {
        assert(edits@.skip(edits@.len() as int) =~= Seq::empty());
        assert(text@.subrange(at as int, text@.len() as int) =~= text@.skip(at as int));
        if in_order(text@, edits@, 0) {
            every_edit_is_carried_out(text@, edits@, 0);
        }
    }
    (out, count)
}

/// Whether `edits` lie in the text from `at` on, one after the other.
pub open spec fn in_order(text: Seq<u8>, edits: Seq<Edit>, at: int) -> bool {
    &&& 0 <= at <= text.len()
    &&& forall|i: int|
        0 <= i < edits.len() ==> at <= (#[trigger] edits[i]).start <= edits[i].end <= text.len()
    &&& forall|i: int, j: int|
        0 <= i < j < edits.len() ==> (#[trigger] edits[i]).end <= (#[trigger] edits[j]).start
}

/// How much longer the text is for the first `n` edits.
pub open spec fn growth(edits: Seq<Edit>, n: int) -> int
    decreases n,
{
    if n <= 0 {
        0
    } else {
        growth(edits, n - 1) + edits[n - 1].with@.len() - (edits[n - 1].end - edits[n - 1].start)
    }
}

/// Whether `after` is the text from `at` on with the edits in it: each edit's
/// own bytes stand where its range began, moved by what the edits before it
/// added or took away, and every byte outside the ranges stands where it did,
/// moved in the same way.
pub open spec fn holds_edits(after: Seq<u8>, text: Seq<u8>, edits: Seq<Edit>, at: int) -> bool {
    &&& after.len() == text.len() - at + growth(edits, edits.len() as int)
    &&& forall|i: int, k: int|
        0 <= i < edits.len() && 0 <= k < edits[i].with@.len() ==> after[edits[i].start - at
            + growth(edits, i) + k] == #[trigger] edits[i].with@[k]
    &&& forall|i: int, p: int|
        #![trigger growth(edits, i), text[p]]
        {
            &&& 0 <= i <= edits.len()
            &&& at <= p < text.len()
            &&& i > 0 ==> edits[i - 1].end <= p
            &&& i < edits.len() ==> p < edits[i].start
        } ==> after[p - at + growth(edits, i)] == text[p]
}

/// The growth of the edits after the first is the rest of all growth.
proof fn growth_after_first(edits: Seq<Edit>, n: int)
    requires
        1 <= n <= edits.len(),
    ensures
        growth(edits, n) == edits[0].with@.len() - (edits[0].end - edits[0].start) + growth(
            edits.drop_first(),
            n - 1,
        ),
    decreases n,
{
    if n > 1 {
        growth_after_first(edits, n - 1);
        assert(edits.drop_first()[n - 2] == edits[n - 1]);
    } else {
        assert(growth(edits, 0) == 0);
    }
}

/// Edits that lie in the text one after the other are all carried out, and
/// nothing else happens to the text. An edit that puts nothing in takes its
/// range out.
pub proof fn every_edit_is_carried_out(text: Seq<u8>, edits: Seq<Edit>, at: int)
    requires
        in_order(text, edits, at),
    ensures
        edit_count(text, edits, at) == edits.len(),
        holds_edits(edited(text, edits, at), text, edits, at),
    decreases edits.len(),
{
    let after = edited(text, edits, at);
    if edits.len() == 0 {
        assert(forall|p: int| at <= p < text.len() ==> after[p - at] == text[p]);
    } else {
        let e = edits[0];
        let rest = edits.drop_first();
        assert(forall|i: int| 0 <= i < rest.len() ==> rest[i] == edits[i + 1]);
        assert(in_order(text, rest, e.end as int)) by {
            assert forall|i: int| 0 <= i < rest.len() implies e.end <= (#[trigger] rest[i]).start
                <= rest[i].end <= text.len() by {
                assert(edits[0].end <= edits[i + 1].start);
            }
            assert forall|i: int, j: int| 0 <= i < j < rest.len() implies (#[trigger] rest[i]).end
                <= (#[trigger] rest[j]).start by {
                assert(edits[i + 1].end <= edits[j + 1].start);
            }
        }
        every_edit_is_carried_out(text, rest, e.end as int);
        let tail = edited(text, rest, e.end as int);
        let kept = text.subrange(at, e.start as int);
        assert(after == kept + e.with@ + tail);
        let shift = e.start - at + e.with@.len();
        growth_after_first(edits, edits.len() as int);
        assert forall|i: int, k: int|
            0 <= i < edits.len() && 0 <= k < edits[i].with@.len() implies after[edits[i].start - at
            + growth(edits, i) + k] == #[trigger] edits[i].with@[k] by {
            if i == 0 {
                assert(growth(edits, 0) == 0);
            } else {
                growth_after_first(edits, i);
                let j = i - 1;
                assert(rest[j] == edits[i]);
                assert(tail[rest[j].start - e.end + growth(rest, j) + k] == rest[j].with@[k]);
                room_for_edit(text, rest, e.end as int, j);
                if j + 1 < rest.len() {
                    assert(rest[j].end <= rest[j + 1].start);
                }
                room_left(text, rest, e.end as int, j + 1, rest[j].end as int);
                let t = rest[j].start - e.end + growth(rest, j) + k;
                assert(0 <= t < tail.len());
                assert(after[shift + t] == tail[t]);
            }
        }
        assert forall|i: int, p: int|
            #![trigger growth(edits, i), text[p]]
            {
                &&& 0 <= i <= edits.len()
                &&& at <= p < text.len()
                &&& i > 0 ==> edits[i - 1].end <= p
                &&& i < edits.len() ==> p < edits[i].start
            } implies after[p - at + growth(edits, i)] == text[p] by {
            if i == 0 {
                assert(growth(edits, 0) == 0);
            } else {
                growth_after_first(edits, i);
                let j = i - 1;
                if j > 0 {
                    assert(rest[j - 1] == edits[i - 1]);
                }
                if j < rest.len() {
                    assert(rest[j] == edits[i]);
                }
                assert(e.end <= p) by {
                    if j > 0 {
                        assert(edits[0].end <= edits[i - 1].start);
                    }
                }
                assert(tail[p - e.end + growth(rest, j)] == text[p]);
                room_for_byte(text, rest, e.end as int, j, p);
                room_left(text, rest, e.end as int, j, p + 1);
                let t = p - e.end + growth(rest, j);
                assert(0 <= t < tail.len());
                assert(after[shift + t] == tail[t]);
            }
        }
    }
}

/// From `q` on, the edits from `i` on take away no more than there is.
proof fn room_left(text: Seq<u8>, edits: Seq<Edit>, at: int, i: int, q: int)
    requires
        in_order(text, edits, at),
        0 <= i <= edits.len(),
        q <= text.len(),
        i < edits.len() ==> q <= edits[i].start,
    ensures
        q + growth(edits, i) <= text.len() + growth(edits, edits.len() as int),
    decreases edits.len() - i,
{
    if i < edits.len() {
        if i + 1 < edits.len() {
            assert(edits[i].end <= edits[i + 1].start);
        }
        room_left(text, edits, at, i + 1, edits[i].end as int);
    }
}

/// An edit's bytes stand at or after where its text begins.
proof fn room_for_edit(text: Seq<u8>, edits: Seq<Edit>, at: int, i: int)
    requires
        in_order(text, edits, at),
        0 <= i < edits.len(),
    ensures
        edits[i].start - at + growth(edits, i) >= 0,
    decreases i,
{
    if i > 0 {
        room_for_edit(text, edits, at, i - 1);
        assert(edits[i - 1].end <= edits[i].start);
    }
}

/// So does a byte that no edit touches.
proof fn room_for_byte(text: Seq<u8>, edits: Seq<Edit>, at: int, i: int, p: int)
    requires
        in_order(text, edits, at),
        0 <= i <= edits.len(),
        at <= p,
        i > 0 ==> edits[i - 1].end <= p,
    ensures
        p - at + growth(edits, i) >= 0,
{
    if i > 0 {
        room_for_edit(text, edits, at, i - 1);
    }
}

/// One edit replaces its range and leaves the rest; one that does not lie in
/// the text does nothing.
pub proof fn one_edit_replaces_its_range(text: Seq<u8>, edit: Edit)
    ensures
        edit.start <= edit.end <= text.len() ==> {
            &&& edited(text, seq![edit], 0) == text.take(edit.start as int) + edit.with@
                + text.skip(edit.end as int)
            &&& edit_count(text, seq![edit], 0) == 1
        },
        !(edit.start <= edit.end <= text.len()) ==> {
            &&& edited(text, seq![edit], 0) == text
            &&& edit_count(text, seq![edit], 0) == 0
        },
{
    let edits = seq![edit];
    assert(edits.drop_first() =~= Seq::<Edit>::empty());
    reveal_with_fuel(edited, 2);
    reveal_with_fuel(edit_count, 2);
    if edit.start <= edit.end <= text.len() {
        assert(edited(text, edits, 0) =~= text.take(edit.start as int) + edit.with@ + text.skip(
            edit.end as int,
        ));
    } else {
        assert(edited(text, edits, 0) =~= text);
    }
}

/// No edits, no change.
pub proof fn nothing_to_edit(text: Seq<u8>)
    ensures
        edited(text, Seq::empty(), 0) == text,
{
    assert(text.skip(0) =~= text);
}

impl Buffer {
    /// How many of `edits` the document takes. One that is read-only takes
    /// none.
    pub open spec fn taken(&self, edits: Seq<Edit>) -> nat {
        if self.read_only {
            0
        } else {
            edit_count(self.text@, edits, 0)
        }
    }

    /// See [`Buffer::taken`].
    pub fn count_taken(&self, edits: &Vec<Edit>) -> (count: usize)
        ensures
            count == self.taken(edits@),
            count <= edits@.len(),
    {
        if self.read_only {
            0
        } else {
            apply_edits(&self.text, edits).1
        }
    }

    /// Carries out `edits`, as one step, unless the document is read-only.
    /// Returns how many there were.
    pub fn replace_ranges(&mut self, edits: &Vec<Edit>) -> (count: usize)
        ensures
            count == old(self).taken(edits@),
            count == 0 ==> *final(self) == *old(self),
            count > 0 ==> final(self).text@ == edited(old(self).text@, edits@, 0) && *final(self)
                == (Buffer {
                text: final(self).text,
                cursor: if old(self).cursor <= final(self).text.len() {
                    old(self).cursor
                } else {
                    final(self).text.len()
                },
                anchor: if old(self).anchor <= final(self).text.len() {
                    old(self).anchor
                } else {
                    final(self).text.len()
                },
                dirty: true,
                ..*old(self)
            }),
            old(self).wf() ==> final(self).wf(),
            !old(self).read_only && in_order(old(self).text@, edits@, 0) ==> {
                &&& count == edits@.len()
                &&& holds_edits(final(self).text@, old(self).text@, edits@, 0)
            },
    {
        if self.read_only {
            return 0;
        }
        let (text, count) = apply_edits(&self.text, edits);
        proof {
            if in_order(old(self).text@, edits@, 0) && edits@.len() == 0 {
                assert(edits@ =~= Seq::empty());
                nothing_to_edit(old(self).text@);
            }
        }
        if count > 0 {
            let cursor = self.cursor;
            let anchor = self.anchor;
            self.text = text;
            self.dirty = true;
            self.select_range(anchor, cursor);
        }
        count
    }
}

impl Buffer {
    /// This is `before` with `text` read from disk in place of its own.
    pub open spec fn reloads(&self, before: Buffer, text: Seq<u8>) -> bool {
        &&& self.text@ == text
        &&& *self == (Buffer {
            text: self.text,
            cursor: self.within(before.cursor),
            anchor: self.within(before.cursor),
            dirty: false,
            ..before
        })
    }

    /// Takes in what is on disk. The caret stays where it was, as far as the
    /// text still reaches.
    pub fn reload(&mut self, text: Vec<u8>)
        ensures
            final(self).wf(),
            final(self).reloads(*old(self), text@),
    {
        self.text = text;
        let cursor = self.cursor;
        self.select_range(cursor, cursor);
        self.dirty = false;
    }
}

/// Whether two texts have the same bytes.
pub fn same_bytes(a: &Vec<u8>, b: &Vec<u8>) -> (r: bool)
    ensures
        r == (a@ == b@),
{
    if a.len() != b.len() {
        return false;
    }
    let mut i: usize = 0;
    while i < a.len()
        invariant
            a@.len() == b@.len(),
            i <= a@.len(),
            forall|j: int| 0 <= j < i ==> a@[j] == b@[j],
        decreases a@.len() - i,
    {
        if a[i] != b[i] {
            return false;
        }
        i += 1;
    }
    assert(a@ =~= b@);
    true
}

impl Buffer {
    /// Whether this is a document made here rather than read from a file.
    pub open spec fn is_generated(
        &self,
        id: u64,
        label: Seq<char>,
        extension: Seq<char>,
        text: Seq<u8>,
    ) -> bool {
        &&& self.id == id
        &&& self.label matches Some(name) && name@ == label
        &&& self.extension matches Some(ending) && ending@ == extension
        &&& self.text@ == text
        &&& exists|blank: Buffer|
            {
                &&& #[trigger] blank.is_blank()
                &&& *self == (Buffer {
                    id: self.id,
                    label: self.label,
                    extension: self.extension,
                    text: self.text,
                    ..blank
                })
            }
    }

    /// A document made here: a response, or an edit somebody proposes.
    pub fn generated(id: u64, label: String, extension: &str, text: Vec<u8>) -> (b: Buffer)
        ensures
            b.wf(),
            b.is_generated(id, label@, extension@, text@),
    {
        let blank = Buffer::new(id);
        let ghost empty = blank;
        let mut b = blank;
        b.label = Some(label);
        b.extension = Some(extension.to_owned());
        b.text = text;
        assert(empty.is_blank());
        b
    }

    /// This is `before` made again with `text`.
    pub open spec fn regenerates(&self, before: Buffer, text: Seq<u8>) -> bool {
        &&& self.text@ == text
        &&& *self == (Buffer {
            text: self.text,
            cursor: 0,
            anchor: 0,
            dirty: false,
            ..before
        })
    }

    /// Makes the document again with `text`.
    pub fn regenerate(&mut self, text: Vec<u8>)
        ensures
            final(self).wf(),
            final(self).regenerates(*old(self), text@),
    {
        self.text = text;
        self.cursor = 0;
        self.anchor = 0;
        self.dirty = false;
    }
}

/// The first place from `from` where `needle` stands in `text`.
pub open spec fn found_at(text: Seq<u8>, needle: Seq<u8>, from: int) -> Option<int>
    decreases text.len() + 1 - from,
{
    if from < 0 || from + needle.len() > text.len() {
        None
    } else if text.subrange(from, from + needle.len()) == needle {
        Some(from)
    } else {
        found_at(text, needle, from + 1)
    }
}

/// Whether `needle` stands at `at`.
fn stands_at(text: &Vec<u8>, needle: &Vec<u8>, at: usize) -> (r: bool)
    requires
        at + needle@.len() <= text@.len(),
    ensures
        r == (text@.subrange(at as int, at + needle@.len()) == needle@),
{
    let mut i: usize = 0;
    let end = text.len();
    while i < needle.len()
        invariant
            end == text@.len(),
            at + needle@.len() <= text@.len(),
            i <= needle@.len(),
            forall|j: int| 0 <= j < i ==> text@[at + j] == needle@[j],
        decreases needle@.len() - i,
    {
        if text[at + i] != needle[i] {
            assert(text@.subrange(at as int, at + needle@.len())[i as int] != needle@[i as int]);
            return false;
        }
        i += 1;
    }
    assert(text@.subrange(at as int, at + needle@.len()) =~= needle@);
    true
}

/// See [`found_at`].
pub fn find_bytes(text: &Vec<u8>, needle: &Vec<u8>, from: usize) -> (at: Option<usize>)
    ensures
        match (at, found_at(text@, needle@, from as int)) {
            (Some(a), Some(b)) => a == b && a + needle@.len() <= text@.len() && from <= a,
            (None, None) => true,
            _ => false,
        },
{
    let mut at: usize = from;
    while at <= text.len() && needle.len() <= text.len() - at
        invariant
            from <= at,
            found_at(text@, needle@, at as int) == found_at(text@, needle@, from as int),
            at <= text@.len() + 1 || at == from,
        decreases text@.len() + 1 - at,
    {
        if stands_at(text, needle, at) {
            return Some(at);
        }
        if at == text.len() {
            proof {
                assert(needle@.len() == 0);
                assert(text@.subrange(at as int, at as int) =~= needle@);
            }
            return None;
        }
        at += 1;
    }
    None
}

} // verus!
