//! Folding and wrapping.

use crate::buffer::{self, Buffer};
use crate::state::{EditorView, Effect, WordWrap};
use vstd::prelude::*;
use vstd::string::*;

verus! {

/// How far up the head of a block is looked for.
pub const FOLD_REACH: usize = 2000;

/// The longest file that is folded as a whole, in lines.
pub const FOLD_ALL_LINES: usize = 100000;

/// A block: the line it hangs under, and its last line.
#[derive(Clone, Copy, PartialEq, Eq, Structural, Debug)]
pub struct Block {
    pub head: usize,
    pub last: usize,
}

/// The first block that hangs under `line`.
pub open spec fn block_at(blocks: Seq<Block>, line: int) -> Option<Block>
    decreases blocks.len(),
{
    if blocks.len() == 0 {
        None
    } else if blocks[0].head == line {
        Some(blocks[0])
    } else {
        block_at(blocks.drop_first(), line)
    }
}

/// See [`block_at`].
fn find_block(blocks: &Vec<Block>, line: usize) -> (block: Option<Block>)
    ensures
        block == block_at(blocks@, line as int),
{
    let mut i: usize = 0;
    assert(blocks@.skip(0) =~= blocks@);
    while i < blocks.len()
        invariant
            i <= blocks@.len(),
            block_at(blocks@, line as int) == block_at(blocks@.skip(i as int), line as int),
        decreases blocks@.len() - i,
    {
        assert(blocks@.skip(i as int).drop_first() =~= blocks@.skip(i + 1));
        if blocks[i].head == line {
            return Some(blocks[i]);
        }
        i += 1;
    }
    None
}

/// Whether `l` heads a block that `line` is in.
pub open spec fn heads_block(blocks: Seq<Block>, l: int, line: int) -> bool {
    block_at(blocks, l) matches Some(block) && (l == line || block.last >= line)
}

/// The nearest line from `l` up, within `reach`, that heads a block containing
/// `line`.
pub open spec fn head_above(blocks: Seq<Block>, l: int, line: int, reach: nat) -> Option<int>
    decreases reach,
{
    if reach == 0 || l < 0 {
        None
    } else if heads_block(blocks, l, line) {
        Some(l)
    } else {
        head_above(blocks, l - 1, line, (reach - 1) as nat)
    }
}

/// See [`head_above`].
fn find_head(blocks: &Vec<Block>, line: usize) -> (head: Option<usize>)
    ensures
        match (head, head_above(blocks@, line as int, line as int, FOLD_REACH as nat)) {
            (Some(a), Some(b)) => a == b,
            (None, None) => true,
            _ => false,
        },
        head matches Some(head) ==> block_at(blocks@, head as int) is Some,
{
    let mut l: usize = line;
    let mut reach: usize = FOLD_REACH;
    while reach > 0
        invariant
            head_above(blocks@, l as int, line as int, reach as nat) == head_above(
                blocks@,
                line as int,
                line as int,
                FOLD_REACH as nat,
            ),
        decreases reach,
    {
        if let Some(block) = find_block(blocks, l) {
            if l == line || block.last >= line {
                return Some(l);
            }
        }
        if l == 0 {
            assert(head_above(blocks@, -1, line as int, (reach - 1) as nat) is None);
            return None;
        }
        l -= 1;
        reach -= 1;
    }
    None
}

/// Whether `line` is among `lines`.
fn has_line(lines: &Vec<usize>, line: usize) -> (r: bool)
    ensures
        r == lines@.contains(line),
{
    let mut i: usize = 0;
    while i < lines.len()
        invariant
            i <= lines@.len(),
            forall|j: int| 0 <= j < i ==> lines@[j] != line,
        decreases lines@.len() - i,
    {
        if lines[i] == line {
            return true;
        }
        i += 1;
    }
    false
}

/// The lines that blocks hang under, in order.
pub open spec fn heads_of(blocks: Seq<Block>) -> Seq<usize> {
    blocks.map_values(|b: Block| b.head)
}

/// `folds` without `line`.
pub open spec fn without_line(folds: Seq<usize>, line: usize) -> Seq<usize> {
    folds.filter(|l: usize| l != line)
}

impl Buffer {
    /// This document with other lines folded.
    pub open spec fn with_folds(self, folds: Vec<usize>) -> Buffer {
        Buffer { folds, ..self }
    }

    /// Whether `after` has `line` folded too.
    pub open spec fn folds_line(&self, before: Buffer, line: usize) -> bool {
        &&& *self == before.with_folds(self.folds)
        &&& self.folds@ == (if before.folds@.contains(line) {
            before.folds@
        } else {
            before.folds@.push(line)
        })
    }

    /// Whether this is `before` with `line` open.
    pub open spec fn unfolds_line(&self, before: Buffer, line: usize) -> bool {
        &&& *self == before.with_folds(self.folds)
        &&& self.folds@ == without_line(before.folds@, line)
    }

    /// Folds the block that hangs under `line`. Returns whether there is one.
    pub fn fold(&mut self, line: usize, blocks: &Vec<Block>) -> (done: bool)
        ensures
            old(self).wf() ==> final(self).wf(),
            done == (block_at(blocks@, line as int) is Some),
            done ==> final(self).folds_line(*old(self), line),
            !done ==> *final(self) == *old(self),
    {
        if find_block(blocks, line).is_none() {
            return false;
        }
        if !has_line(&self.folds, line) {
            self.folds.push(line);
        }
        true
    }

    /// Opens the block that hangs under `line`. Returns whether it was folded.
    pub fn unfold(&mut self, line: usize) -> (done: bool)
        ensures
            old(self).wf() ==> final(self).wf(),
            done == old(self).folds@.contains(line),
            done ==> final(self).unfolds_line(*old(self), line),
            !done ==> *final(self) == *old(self),
    {
        if !has_line(&self.folds, line) {
            return false;
        }
        let mut rest: Vec<usize> = Vec::new();
        let mut i: usize = 0;
        let ghost folds = self.folds@;
        assert(folds.take(0) =~= Seq::empty());
        assert(rest@ =~= without_line(folds.take(0), line)) by {
            reveal(Seq::filter);
        }
        while i < self.folds.len()
            invariant
                folds == self.folds@,
                *self == *old(self),
                i <= folds.len(),
                rest@ == without_line(folds.take(i as int), line),
            decreases folds.len() - i,
        {
            proof {
                let head = folds.take(i as int);
                assert(folds.take(i + 1) =~= head.push(folds[i as int]));
                reveal(Seq::filter);
                assert(head.push(folds[i as int]).drop_last() =~= head);
            }
            if self.folds[i] != line {
                rest.push(self.folds[i]);
            }
            i += 1;
        }
        assert(folds.take(folds.len() as int) =~= folds);
        self.folds = rest;
        true
    }
}

/// Opening a folded line leaves it open.
pub proof fn an_unfolded_line_is_open(after: Buffer, before: Buffer, line: usize)
    requires
        after.unfolds_line(before, line),
    ensures
        !after.folds@.contains(line),
{
    if after.folds@.contains(line) {
        let i = after.folds@.index_of(line);
        before.folds@.lemma_filter_pred(|l: usize| l != line, i);
    }
}

impl EditorView {
    /// This is `before` with the front document as `front`, its scroll kept
    /// in range and a frame under way.
    pub open spec fn shows_front(
        &self,
        before: EditorView,
        front: Buffer,
        done: Seq<Effect>,
        now: u64,
    ) -> bool {
        &&& self.state.pane.docs.fronts(before.state.pane.docs, front)
        &&& self.shows(before, before.state.with_docs(self.state.pane.docs), done, now)
    }

    /// Folds or opens the block `line` heads, or the caret's: a chevron click.
    pub fn toggle_fold(&mut self, line: Option<usize>, blocks: &Vec<Block>, now: u64)
        requires
            old(self).state.wf(),
        ensures
            final(self).state.wf(),
            ({
                let front = old(self).state.pane.docs.front();
                let after = final(self).state.pane.docs.front();
                let line = match line {
                    Some(line) => line,
                    None => buffer::line_at(front.text@, front.cursor as int) as usize,
                };
                &&& if front.folds@.contains(line) {
                    after.unfolds_line(front, line)
                } else if block_at(blocks@, line as int) is Some {
                    after.folds_line(front, line)
                } else {
                    after == front
                }
                &&& final(self).shows_front(*old(self), after, seq![Effect::ClampScroll], now)
            }),
    {
        let at = self.state.pane.docs.active;
        let line = match line {
            Some(line) => line,
            None => self.state.pane.docs.active().cursor_line(),
        };
        if !self.state.pane.docs.list[at].unfold(line) {
            let folded = self.state.pane.docs.list[at].fold(line, blocks);
        }
        assert(self.state.pane.docs.list@ =~= old(self).state.pane.docs.list@.update(
            at as int,
            self.state.pane.docs.list@[at as int],
        ));
        self.effects.push(Effect::ClampScroll);
        assert(self.effects@ =~= old(self).effects@ + seq![Effect::ClampScroll]);
        self.show(now);
        assert(self.effects@ =~= old(self).effects@ + (seq![Effect::ClampScroll] + old(
            self,
        ).pumping(now)));
    }
}

/// What the commands of the View menu do to the folds.
#[derive(Clone, Copy, PartialEq, Eq, Structural, Debug)]
pub enum FoldCommand {
    Fold,
    Unfold,
    FoldAll,
}

/// How many lines a text has.
pub open spec fn line_count(text: Seq<u8>) -> nat {
    buffer::newlines(text) + 1
}

/// Whether a fold command finds something to do in `front`.
pub open spec fn can_fold(front: Buffer, command: FoldCommand, blocks: Seq<Block>) -> bool {
    let line = buffer::line_at(front.text@, front.cursor as int) as int;
    match command {
        FoldCommand::Fold => head_above(blocks, line, line, FOLD_REACH as nat) is Some,
        FoldCommand::Unfold => front.folds@.contains(line as usize),
        FoldCommand::FoldAll => true,
    }
}

/// Whether `after` is `front` after a fold command. Fold at a line that does
/// not head a block folds the block the caret is in.
pub open spec fn obeys_fold(
    after: Buffer,
    front: Buffer,
    command: FoldCommand,
    blocks: Seq<Block>,
) -> bool {
    let line = buffer::line_at(front.text@, front.cursor as int) as int;
    if !can_fold(front, command, blocks) {
        after == front
    } else {
        match command {
            FoldCommand::Fold => after.folds_line(
                front,
                head_above(blocks, line, line, FOLD_REACH as nat)->0 as usize,
            ),
            FoldCommand::Unfold => after.unfolds_line(front, line as usize),
            FoldCommand::FoldAll => after == front.with_folds(after.folds) && after.folds@
                == heads_of(blocks),
        }
    }
}

impl EditorView {
    /// Carries out a fold command on the active document. Returns whether
    /// there was something to do.
    fn obey_fold(&mut self, command: FoldCommand, blocks: &Vec<Block>) -> (done: bool)
        requires
            old(self).state.wf(),
        ensures
            final(self).state.wf(),
            ({
                let front = old(self).state.pane.docs.front();
                let after = final(self).state.pane.docs.front();
                &&& done == can_fold(front, command, blocks@)
                &&& obeys_fold(after, front, command, blocks@)
                &&& final(self).state.pane.docs.fronts(old(self).state.pane.docs, after)
                &&& final(self).state == old(self).state.with_docs(final(self).state.pane.docs)
                &&& final(self).ivars == old(self).ivars
                &&& final(self).effects == old(self).effects
            }),
    {
        let at = self.state.pane.docs.active;
        let line = self.state.pane.docs.active().cursor_line();
        let done = match command {
            FoldCommand::Unfold => self.state.pane.docs.list[at].unfold(line),
            FoldCommand::Fold => match find_head(blocks, line) {
                Some(head) => self.state.pane.docs.list[at].fold(head, blocks),
                None => false,
            },
            FoldCommand::FoldAll => {
                let mut folds: Vec<usize> = Vec::new();
                let mut i: usize = 0;
                while i < blocks.len()
                    invariant
                        i <= blocks@.len(),
                        folds@.len() == i,
                        forall|j: int| 0 <= j < i ==> folds@[j] == blocks@[j].head,
                    decreases blocks@.len() - i,
                {
                    folds.push(blocks[i].head);
                    i += 1;
                }
                assert(folds@ =~= heads_of(blocks@));
                self.state.pane.docs.list[at].folds = folds;
                true
            },
        };
        assert(self.state.pane.docs.list@ =~= old(self).state.pane.docs.list@.update(
            at as int,
            self.state.pane.docs.list@[at as int],
        ));
        done
    }

    /// This is `before` with the scroll following the folds and a note, if
    /// there was nothing to do.
    pub open spec fn follows_fold(&self, before: EditorView, done: bool, now: u64) -> bool {
        let work = seq![Effect::ClampScroll, Effect::ScrollToCursor];
        if done {
            self.shows(before, before.state, work, now)
        } else {
            &&& self.state.says("nothing to fold here"@, now)
            &&& self.shows(
                before,
                before.state.saying(self.state.status.message->0),
                work,
                now,
            )
        }
    }

    /// View > Fold, Unfold at the caret, or Fold All. `blocks` are those of
    /// the document that can be folded.
    pub fn fold_command(&mut self, command: FoldCommand, blocks: &Vec<Block>, now: u64)
        requires
            old(self).state.wf(),
        ensures
            final(self).state.wf(),
            ({
                let front = old(self).state.pane.docs.front();
                if command is FoldAll && line_count(front.text@) > FOLD_ALL_LINES {
                    &&& final(self).state.says(
                        "Fold All works on files up to 100,000 lines"@,
                        now,
                    )
                    &&& final(self).marks(
                        *old(self),
                        old(self).state.saying(final(self).state.status.message->0),
                        Seq::empty(),
                    )
                } else {
                    exists|folded: EditorView|
                        {
                            &&& #[trigger] folded.has_obeyed(*old(self), command, blocks@)
                            &&& final(self).follows_fold(
                                folded,
                                can_fold(front, command, blocks@),
                                now,
                            )
                        }
                }
            }),
    {
        if command == FoldCommand::FoldAll {
            let text = &self.state.pane.docs.active().text;
            let last = buffer::line_of(text, text.len());
            assert(text@.take(text@.len() as int) =~= text@);
            if last >= FOLD_ALL_LINES {
                self.say("Fold All works on files up to 100,000 lines".to_owned(), now);
                self.request_redraw();
                assert(self.effects@ =~= old(self).effects@ + Seq::<Effect>::empty());
                return;
            }
        }
        let done = self.obey_fold(command, blocks);
        let ghost folded = *self;
        assert(folded.has_obeyed(*old(self), command, blocks@));
        if !done {
            self.say("nothing to fold here".to_owned(), now);
        }
        self.effects.push(Effect::ClampScroll);
        self.effects.push(Effect::ScrollToCursor);
        let ghost work = seq![Effect::ClampScroll, Effect::ScrollToCursor];
        assert(self.effects@ =~= folded.effects@ + work);
        self.show(now);
        assert(self.effects@ =~= folded.effects@ + (work + folded.pumping(now)));
    }

    /// This is `before` with the fold command carried out.
    pub open spec fn has_obeyed(
        &self,
        before: EditorView,
        command: FoldCommand,
        blocks: Seq<Block>,
    ) -> bool {
        let front = before.state.pane.docs.front();
        let after = self.state.pane.docs.front();
        &&& obeys_fold(after, front, command, blocks)
        &&& self.state.pane.docs.fronts(before.state.pane.docs, after)
        &&& self.state == before.state.with_docs(self.state.pane.docs)
        &&& self.ivars == before.ivars
        &&& self.effects == before.effects
    }
}

/// Whether a document of this extension wraps unless told otherwise: prose
/// does, code does not.
pub open spec fn is_prose(extension: Seq<char>) -> bool {
    ||| extension == "md"@
    ||| extension == "markdown"@
    ||| extension == "mdx"@
    ||| extension == "txt"@
    ||| extension == "text"@
    ||| extension == "rst"@
    ||| extension == "adoc"@
    ||| extension == "org"@
}

/// See [`is_prose`].
pub fn wraps_by_default(b: &Buffer) -> (r: bool)
    ensures
        r == (b.extension matches Some(extension) && is_prose(extension@)),
{
    match &b.extension {
        Some(extension) => {
            let e = extension.as_str();
            crate::text::same(e, "md") || crate::text::same(e, "markdown") || crate::text::same(
                e,
                "mdx",
            ) || crate::text::same(e, "txt") || crate::text::same(e, "text") || crate::text::same(
                e,
                "rst",
            ) || crate::text::same(e, "adoc") || crate::text::same(e, "org")
        },
        None => false,
    }
}

/// Whether `b` wraps: as chosen for it, otherwise as the setting says.
pub open spec fn should_wrap(b: Buffer, setting: WordWrap) -> bool {
    match b.wrap_choice {
        Some(on) => on,
        None => match setting {
            WordWrap::On => true,
            WordWrap::Off => false,
            WordWrap::Auto => b.extension matches Some(extension) && is_prose(extension@),
        },
    }
}

/// A text area, in columns: how wide it is, and the narrowest width that text
/// is wrapped at.
#[derive(Clone, Copy, PartialEq, Eq, Structural, Debug)]
pub struct Columns {
    pub wide: usize,
    pub least: usize,
}

/// The width `b` wraps at. One column is left for the caret at the end of a
/// row.
pub open spec fn wrap_width(b: Buffer, setting: WordWrap, cols: Columns) -> Option<usize> {
    if should_wrap(b, setting) {
        Some(
            if cols.wide > cols.least {
                (cols.wide - 1) as usize
            } else {
                cols.least
            },
        )
    } else {
        None
    }
}

impl Buffer {
    /// This document wrapped for a text area.
    pub open spec fn wrapped(self, setting: WordWrap, cols: Columns) -> Buffer {
        let wrap = wrap_width(self, setting, cols);
        Buffer {
            wrap,
            scroll_row: if self.wrap == wrap {
                self.scroll_row
            } else {
                0
            },
            ..self
        }
    }
}

/// Sets whether `b` wraps, and at what width.
pub fn apply_wrap(b: &mut Buffer, setting: WordWrap, cols: Columns)
    ensures
        old(b).wf() ==> final(b).wf(),
        *final(b) == old(b).wrapped(setting, cols),
{
    let on = match b.wrap_choice {
        Some(on) => on,
        None => match setting {
            WordWrap::On => true,
            WordWrap::Off => false,
            WordWrap::Auto => wraps_by_default(b),
        },
    };
    let wrap = if on {
        Some(
            if cols.wide > cols.least {
                cols.wide - 1
            } else {
                cols.least
            },
        )
    } else {
        None
    };
    if b.wrap != wrap {
        b.wrap = wrap;
        b.scroll_row = 0;
    }
}

impl Buffer {
    /// This document with its wrapping flipped.
    pub open spec fn wrap_flipped(self, setting: WordWrap, cols: Columns) -> Buffer {
        let chosen = Buffer { wrap_choice: Some(self.wrap is None), ..self };
        Buffer { scroll_column: 0, ..chosen.wrapped(setting, cols) }
    }

    /// Flips the wrapping.
    fn flip_wrap(&mut self, setting: WordWrap, cols: Columns)
        ensures
            old(self).wf() ==> final(self).wf(),
            *final(self) == old(self).wrap_flipped(setting, cols),
    {
        self.wrap_choice = Some(self.wrap.is_none());
        apply_wrap(self, setting, cols);
        self.scroll_column = 0;
    }
}

impl EditorView {
    /// View > Word Wrap: flips wrapping for the active document.
    pub fn toggle_word_wrap(&mut self, cols: Columns, now: u64)
        requires
            old(self).state.wf(),
        ensures
            final(self).state.wf(),
            ({
                let front = old(self).state.pane.docs.front();
                let docs = final(self).state.pane.docs;
                &&& docs.fronts(
                    old(self).state.pane.docs,
                    front.wrap_flipped(old(self).state.status.word_wrap, cols),
                )
                &&& final(self).state.says(
                    if front.wrap is None {
                        "word wrap on"@
                    } else {
                        "word wrap off"@
                    },
                    now,
                )
                &&& final(self).shows(
                    *old(self),
                    old(self).state.with_docs(docs).saying(final(self).state.status.message->0),
                    seq![Effect::ScrollToCursor],
                    now,
                )
            }),
    {
        let at = self.state.pane.docs.active;
        let setting = self.state.status.word_wrap;
        let on = self.state.pane.docs.list[at].wrap.is_none();
        self.state.pane.docs.list[at].flip_wrap(setting, cols);
        self.say(
            if on {
                "word wrap on".to_owned()
            } else {
                "word wrap off".to_owned()
            },
            now,
        );
        self.effects.push(Effect::ScrollToCursor);
        let ghost done = seq![Effect::ScrollToCursor];
        assert(self.effects@ =~= old(self).effects@ + done);
        self.show(now);
        assert(self.effects@ =~= old(self).effects@ + (done + old(self).pumping(now)));
    }
}

/// Toggling twice leaves a document wrapped, or unwrapped, as it was.
pub proof fn toggling_wrap_twice(b: Buffer, setting: WordWrap, cols: Columns)
    ensures
        b.wrap_flipped(setting, cols).wrap_flipped(setting, cols).wrap is Some == b.wrap is Some,
{
}

impl EditorView {
    /// View > Unfold All.
    pub fn action_unfold_all(&mut self, now: u64)
        requires
            old(self).state.wf(),
        ensures
            final(self).state.wf(),
            ({
                let after = final(self).state.pane.docs;
                let front = old(self).state.pane.docs.front();
                &&& after.front().folds@.len() == 0
                &&& after.front() == front.with_folds(after.front().folds)
                &&& after.fronts(old(self).state.pane.docs, after.front())
                &&& final(self).shows(
                    *old(self),
                    old(self).state.with_docs(after),
                    Seq::empty(),
                    now,
                )
            }),
    {
        let at = self.state.pane.docs.active;
        self.state.pane.docs.list[at].folds = Vec::new();
        assert(self.state.pane.docs.list@ =~= old(self).state.pane.docs.list@.update(
            at as int,
            self.state.pane.docs.list@[at as int],
        ));
        assert(self.effects@ =~= old(self).effects@ + Seq::<Effect>::empty());
        self.show(now);
        assert(self.effects@ =~= old(self).effects@ + (Seq::<Effect>::empty() + old(self).pumping(
            now,
        )));
    }
}

/// Folding only hides lines: the text, the caret and the selection stay.
pub proof fn folding_keeps_the_text(
    after: Buffer,
    front: Buffer,
    command: FoldCommand,
    blocks: Seq<Block>,
)
    requires
        obeys_fold(after, front, command, blocks),
    ensures
        after.text == front.text,
        after.cursor == front.cursor,
        after.anchor == front.anchor,
        after.dirty == front.dirty,
{
}

} // verus!
