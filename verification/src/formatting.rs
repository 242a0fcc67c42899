//! Formatting the active document, and how it is indented.

use crate::ask::{self, ServerAsk};
use crate::buffer::{self, line_end, slice_of, Buffer, Edit};
use crate::path::{self, path_eq};
use crate::state::{EditorView, Effect, Formatting, Position, Servers, State, Task};
use crate::text::{self, chars_of, read, space};
use vstd::prelude::*;
use vstd::string::*;

verus! {

/// How many lines are looked at, and how far into each.
pub const LINES: usize = 400;

pub const HEAD: usize = 64;

/// Whether a byte goes on with a character.
pub open spec fn continues(byte: u8) -> bool {
    0x80 <= byte < 0xc0
}

/// The last place up to `k`, not before `from`, where a character can start.
pub open spec fn boundary(text: Seq<u8>, from: int, k: int) -> int
    decreases k - from,
{
    if k <= from || k >= text.len() || !continues(text[k]) {
        k
    } else {
        boundary(text, from, k - 1)
    }
}

/// The beginning of the text at `start`, which may go on past its line.
pub open spec fn head_at(text: Seq<u8>, start: int) -> Seq<char> {
    let end = if start + HEAD < text.len() {
        start + HEAD
    } else {
        text.len() as int
    };
    text::readable(text.subrange(start, boundary(text, start, end)))
}

/// The beginnings of the first `count` lines from `start`.
pub open spec fn heads(text: Seq<u8>, start: int, count: nat) -> Seq<Seq<char>>
    decreases count,
{
    if count == 0 {
        Seq::empty()
    } else {
        let end = buffer::line_end_at(text, start);
        seq![head_at(text, start)] + if end < text.len() {
            heads(text, end + 1, (count - 1) as nat)
        } else {
            Seq::empty()
        }
    }
}

/// How many spaces a line begins with.
pub open spec fn leading_spaces(head: Seq<char>) -> nat
    decreases head.len(),
{
    if head.len() == 0 || head[0] != ' ' {
        0
    } else {
        1 + leading_spaces(head.drop_first())
    }
}

/// Whether a line is indented by `n` spaces: something follows them.
pub open spec fn indented_by(head: Seq<char>, n: int) -> bool {
    &&& n > 0
    &&& leading_spaces(head) == n
    &&& n < head.len()
    &&& !text::is_space(head[n])
}

/// Whether one of the lines begins with a tab.
pub open spec fn has_tab(lines: Seq<Seq<char>>) -> bool {
    exists|i: int| 0 <= i < lines.len() && (#[trigger] lines[i]).len() > 0 && lines[i][0] == '\t'
}

/// Whether one of the lines is indented by `n` spaces.
pub open spec fn has_indent(lines: Seq<Seq<char>>, n: int) -> bool {
    exists|i: int| 0 <= i < lines.len() && indented_by(#[trigger] lines[i], n)
}

/// Whether a document indents with spaces, and how wide a level is: with tabs
/// if a line does, otherwise by two when that is the narrowest indent. Spaces
/// and four when nothing says otherwise.
pub open spec fn indent_of(lines: Seq<Seq<char>>) -> (bool, u32) {
    if has_tab(lines) {
        (false, 4)
    } else if has_indent(lines, 2) && !has_indent(lines, 1) {
        (true, 2)
    } else {
        (true, 4)
    }
}

/// See [`boundary`].
pub fn find_boundary(text: &Vec<u8>, from: usize, k: usize) -> (at: usize)
    requires
        from <= k <= text@.len(),
    ensures
        at == boundary(text@, from as int, k as int),
        from <= at <= k,
{
    let mut at: usize = k;
    while at > from && at < text.len() && text[at] >= 0x80 && text[at] < 0xc0
        invariant
            from <= at <= k <= text@.len(),
            boundary(text@, from as int, at as int) == boundary(text@, from as int, k as int),
        decreases at,
    {
        at -= 1;
    }
    at
}

/// What a line says about the indent.
enum Hint {
    Tab,
    Spaces(usize),
    Nothing,
}

/// See [`Hint`].
fn hint_of(head: &str) -> (hint: Hint)
    ensures
        match hint {
            Hint::Tab => head@.len() > 0 && head@[0] == '\t',
            Hint::Spaces(n) => !(head@.len() > 0 && head@[0] == '\t') && indented_by(
                head@,
                n as int,
            ),
            Hint::Nothing => !(head@.len() > 0 && head@[0] == '\t') && forall|n: int|
                !indented_by(head@, n),
        },
{
    let chars = chars_of(head);
    if chars.len() > 0 && chars[0] == '\t' {
        return Hint::Tab;
    }
    let mut n: usize = 0;
    assert(chars@.skip(0) =~= chars@);
    while n < chars.len() && chars[n] == ' '
        invariant
            chars@ == head@,
            n <= chars@.len(),
            leading_spaces(chars@) == n + leading_spaces(chars@.skip(n as int)),
        decreases chars@.len() - n,
    {
        assert(chars@.skip(n as int).drop_first() =~= chars@.skip(n + 1));
        n += 1;
    }
    assert(leading_spaces(head@) == n);
    if n > 0 && n < chars.len() && !space(chars[n]) {
        Hint::Spaces(n)
    } else {
        Hint::Nothing
    }
}

/// See [`indent_of`].
pub fn indent_style(text: &Vec<u8>) -> (style: (bool, u32))
    ensures
        style == indent_of(heads(text@, 0, LINES as nat)),
{
    let ghost all = heads(text@, 0, LINES as nat);
    let ghost mut done = Seq::<Seq<char>>::empty();
    let mut start: usize = 0;
    let mut count: usize = LINES;
    let mut one = false;
    let mut two = false;
    assert(all =~= done + heads(text@, 0, LINES as nat));
    while count > 0
        invariant_except_break
            start <= text@.len(),
            all == done + heads(text@, start as int, count as nat),
        invariant
            all == heads(text@, 0, LINES as nat),
            !has_tab(done),
            one == has_indent(done, 1),
            two == has_indent(done, 2),
        ensures
            done == all,
        decreases count,
    {
        let limit = if text.len() - start > HEAD {
            start + HEAD
        } else {
            text.len()
        };
        let end = find_boundary(text, start, limit);
        let head = read(&slice_of(text, start, end));
        let ghost before = done;
        proof {
            done = before.push(head@);
            assert(head@ == head_at(text@, start as int));
            assert(done.last() == head@);
            assert(forall|i: int| 0 <= i < before.len() ==> done[i] == before[i]);
        }
        let stop = line_end(text, start);
        proof {
            let rest = heads(text@, start as int, count as nat);
            assert(rest[0] == head@);
            assert(all[before.len() as int] == head@);
            if stop < text@.len() {
                assert(all =~= done + heads(text@, stop + 1, (count - 1) as nat));
            } else {
                assert(all =~= done);
            }
        }
        match hint_of(head.as_str()) {
            Hint::Tab => {
                return (false, 4);
            },
            Hint::Spaces(n) => {
                if n == 1 {
                    one = true;
                }
                if n == 2 {
                    two = true;
                }
            },
            Hint::Nothing => {},
        }
        proof {
            assert forall|n: int| #[trigger] has_indent(done, n) == (has_indent(before, n)
                || indented_by(head@, n)) by {
                if has_indent(done, n) {
                    let i = choose|i: int|
                        0 <= i < done.len() && indented_by(#[trigger] done[i], n);
                    if i < before.len() {
                        assert(indented_by(before[i], n));
                    }
                }
                if has_indent(before, n) {
                    let i = choose|i: int|
                        0 <= i < before.len() && indented_by(#[trigger] before[i], n);
                    assert(indented_by(done[i], n));
                }
                if indented_by(head@, n) {
                    assert(indented_by(done[before.len() as int], n));
                }
            }
            assert(has_indent(done, 1) == (has_indent(before, 1) || indented_by(head@, 1)));
            assert(has_indent(done, 2) == (has_indent(before, 2) || indented_by(head@, 2)));
        }
        if stop >= text.len() {
            break;
        }
        start = stop + 1;
        count -= 1;
    }
    if two && !one {
        (true, 2)
    } else {
        (true, 4)
    }
}

/// How a document is to be indented: as it says, or as its lines do.
pub open spec fn style_of(b: Buffer) -> (bool, u32) {
    match b.indent {
        Some(indent) => (!indent.tabs, indent.width),
        None => indent_of(heads(b.text@, 0, LINES as nat)),
    }
}

impl EditorView {
    /// This is `asked` remembering the text that is being formatted, or saying
    /// that the server does not do that.
    pub open spec fn awaits_format(
        &self,
        asked: EditorView,
        front: Buffer,
        sent: bool,
        save: bool,
        now: u64,
    ) -> bool {
        if sent && ask::formats(asked.state) {
            &&& self.state.servers.formatting matches Some(formatting)
            &&& formatting.path == front.path->0
            &&& formatting.text@ == front.text@
            &&& self.becomes(
                asked,
                State {
                    servers: Servers {
                        formatting: self.state.servers.formatting,
                        ..asked.state.servers
                    },
                    ..asked.state
                },
                Seq::empty(),
            )
        } else if sent && !save {
            &&& self.state.says("this language server does not format"@, now)
            &&& self.becomes(
                asked,
                asked.state.saying(self.state.status.message->0),
                Seq::empty(),
            )
        } else {
            *self == asked
        }
    }

    /// Asks the server to format the active document. `save` when a save
    /// asked, which saves again once the edits are in.
    pub fn format_document(&mut self, save: bool, at: Position, now: u64)
        requires
            old(self).state.wf(),
        ensures
            final(self).state.wf(),
            exists|asked: EditorView, sent: bool|
                {
                    &&& #[trigger] asked.asks_server(
                        *old(self),
                        ServerAsk::Format(
                            style_of(old(self).state.pane.docs.front()).1,
                            style_of(old(self).state.pane.docs.front()).0,
                            save,
                        ),
                        at,
                        sent,
                        now,
                    )
                    &&& final(self).awaits_format(
                        asked,
                        old(self).state.pane.docs.front(),
                        sent,
                        save,
                        now,
                    )
                },
    {
        let (spaces, width) = match self.state.pane.docs.active().indent {
            Some(indent) => (!indent.tabs, indent.width),
            None => indent_style(&self.state.pane.docs.active().text),
        };
        let ghost front = old(self).state.pane.docs.front();
        let sent = self.ask_server(ServerAsk::Format(width, spaces, save), at, now);
        let ghost asked = *self;
        proof {
            assert(asked.asks_server(
                *old(self),
                ServerAsk::Format(style_of(front).1, style_of(front).0, save),
                at,
                sent,
                now,
            ));
            ask::asking_keeps_documents(
                *old(self),
                asked,
                ServerAsk::Format(width, spaces, save),
                at,
                sent,
                now,
            );
        }
        if !sent {
            return;
        }
        let formats = match crate::servers::speaking_server(
            &self.state.servers.list,
            self.state.pane.docs.active(),
        ) {
            Some(i) => self.state.servers.list[i].formats,
            None => false,
        };
        if formats {
            let text = self.state.pane.docs.active().text.clone();
            assert(text@ =~= front.text@);
            if let Some(place) = &self.state.pane.docs.active().path {
                let path = place.clone();
                self.state.servers.formatting = Some(Formatting { path, text });
                assert(self.effects@ =~= asked.effects@ + Seq::<Effect>::empty());
            }
        } else if !save {
            self.say("this language server does not format".to_owned(), now);
            assert(self.effects@ =~= asked.effects@ + Seq::<Effect>::empty());
        }
    }
}

impl State {
    /// The state with no format in flight.
    pub open spec fn not_formatting(self) -> State {
        State { servers: Servers { formatting: None, ..self.servers }, ..self }
    }
}

/// Whether a reply about `place` is about the text on screen.
pub open spec fn still_fits(formatting: Formatting, place: Seq<char>, front: Buffer) -> bool {
    &&& path::same_path(formatting.path@, place)
    &&& front.is_at(place)
    &&& front.text@ == formatting.text@
}

/// Whether the edits change `front`.
pub open spec fn edits_change(front: Buffer, ranges: Option<Vec<Edit>>) -> bool {
    ranges matches Some(ranges) && ranges@.len() > 0 && front.taken(ranges@) > 0
}

impl EditorView {
    /// This is `before` with the reply's edits made in the active document.
    pub open spec fn takes_format(
        &self,
        before: EditorView,
        ranges: Option<Vec<Edit>>,
        now: u64,
    ) -> bool {
        let front = before.state.pane.docs.front();
        let docs = self.state.pane.docs;
        let changed = edits_change(front, ranges);
        &&& if changed {
            &&& docs.fronts(before.state.pane.docs, docs.front())
            &&& crate::places::edited_by(docs.front(), front, ranges->0@)
            &&& self.state.servers.dirty@ == before.state.servers.dirty@.insert(front.id, now)
        } else {
            &&& docs == before.state.pane.docs
            &&& self.state.servers.dirty == before.state.servers.dirty
        }
        &&& self.state.says(
            if changed {
                "formatted"@
            } else {
                "already formatted"@
            },
            now,
        )
        &&& self.becomes(
            before,
            before.state.not_formatting().with_docs(docs).with_server_stamps(
                self.state.servers.dirty,
            ).saying(self.state.status.message->0),
            seq![Effect::ScrollToCursor],
        )
    }

    /// This is `before` after a reply that fits the text on screen.
    pub open spec fn finishes_format(
        &self,
        before: EditorView,
        ranges: Option<Vec<Edit>>,
        save: bool,
        now: u64,
    ) -> bool {
        exists|edited: EditorView, followed: EditorView|
            {
                &&& #[trigger] edited.takes_format(before, ranges, now)
                &&& #[trigger] self.ends_format(followed, edits_change(before.state.pane.docs.front(), ranges), save, now)
                &&& if edits_change(before.state.pane.docs.front(), ranges) {
                    followed.follows_edit(edited, now)
                } else {
                    followed == edited
                }
            }
    }

    /// This is `followed` with a save asked for, if one is due, and the frame
    /// under way.
    pub open spec fn ends_format(
        &self,
        followed: EditorView,
        changed: bool,
        save: bool,
        now: u64,
    ) -> bool {
        self.shows(
            followed,
            followed.state,
            if changed && save {
                seq![Effect::Run(Task::SaveFormatted)]
            } else {
                Seq::empty()
            },
            now,
        )
    }

    /// A server's answer to [`EditorView::format_document`]: the edits for the
    /// file at `place`, as places in its text. An answer that no longer fits
    /// the text is dropped rather than applied.
    pub fn apply_format(
        &mut self,
        place: &str,
        ranges: &Option<Vec<Edit>>,
        save: bool,
        now: u64,
    )
        requires
            old(self).state.wf(),
        ensures
            final(self).state.wf(),
            match old(self).state.servers.formatting {
                None => *final(self) == *old(self),
                Some(formatting) => if still_fits(
                    formatting,
                    place@,
                    old(self).state.pane.docs.front(),
                ) {
                    final(self).finishes_format(*old(self), *ranges, save, now)
                } else {
                    &&& final(self).state.says("format skipped: the text changed"@, now)
                    &&& final(self).becomes(
                        *old(self),
                        old(self).state.not_formatting().saying(
                            final(self).state.status.message->0,
                        ),
                        Seq::empty(),
                    )
                },
            },
    {
        let formatting = match self.state.servers.formatting.take() {
            None => {
                return;
            },
            Some(formatting) => formatting,
        };
        let front = self.state.pane.docs.active();
        let fits = path_eq(formatting.path.as_str(), place) && front.at_path(place)
            && buffer::same_bytes(&front.text, &formatting.text);
        if !fits {
            self.say("format skipped: the text changed".to_owned(), now);
            assert(self.effects@ =~= old(self).effects@ + Seq::<Effect>::empty());
            return;
        }
        let changed = self.take_format(ranges, now);
        let ghost edited = *self;
        proof {
            let unformatted = EditorView {
                state: old(self).state.not_formatting(),
                ..*old(self)
            };
            assert(edited.takes_format(unformatted, *ranges, now));
            assert(edited.takes_format(*old(self), *ranges, now));
        }
        if changed {
            self.after_edit(now);
        }
        let ghost followed = *self;
        let ghost mut done = Seq::<Effect>::empty();
        if changed && save {
            self.effects.push(Effect::Run(Task::SaveFormatted));
            proof {
                done = seq![Effect::Run(Task::SaveFormatted)];
            }
        }
        assert(self.effects@ =~= followed.effects@ + done);
        self.show(now);
        assert(self.effects@ =~= followed.effects@ + (done + followed.pumping(now)));
        assert(self.ends_format(followed, changed, save, now));
    }

    /// Makes the reply's edits. Returns whether they changed something.
    fn take_format(&mut self, ranges: &Option<Vec<Edit>>, now: u64) -> (changed: bool)
        requires
            old(self).state.wf(),
            old(self).state.servers.formatting is None,
        ensures
            final(self).state.wf(),
            changed == edits_change(old(self).state.pane.docs.front(), *ranges),
            final(self).takes_format(*old(self), *ranges, now),
    {
        let at = self.state.pane.docs.active;
        let id = self.state.pane.docs.active().id;
        let changed = match ranges {
            Some(ranges) => ranges.len() > 0 && self.state.pane.docs.list[at].count_taken(ranges)
                > 0,
            None => false,
        };
        if changed {
            if let Some(ranges) = ranges {
                let count = self.state.pane.docs.list[at].replace_ranges(ranges);
            }
            self.state.servers.dirty.insert(id, now);
        }
        self.say(
            if changed {
                "formatted".to_owned()
            } else {
                "already formatted".to_owned()
            },
            now,
        );
        self.ask(Effect::ScrollToCursor);
        changed
    }

    /// Saves what a format-on-save produced; that save asks for no other
    /// format.
    pub fn save_formatted(&mut self)
        requires
            old(self).state.wf(),
        ensures
            final(self).state.wf(),
            exists|flagged: EditorView|
                {
                    &&& #[trigger] flagged.is_saving_formatted(*old(self))
                    &&& final(self).starts_save(flagged, false)
                },
    {
        self.state.servers.saving_formatted = true;
        let ghost flagged = *self;
        assert(flagged.is_saving_formatted(*old(self)));
        self.save(false);
    }

    /// This is `before` while what was formatted is being saved.
    pub open spec fn is_saving_formatted(&self, before: EditorView) -> bool {
        &&& self.state == (State {
            servers: Servers { saving_formatted: true, ..before.state.servers },
            ..before.state
        })
        &&& self.ivars == before.ivars
        &&& self.effects == before.effects
    }

    /// That save is over.
    pub fn formatted_saved(&mut self)
        ensures
            old(self).state.wf() ==> final(self).state.wf(),
            final(self).state == (State {
                servers: Servers { saving_formatted: false, ..old(self).state.servers },
                ..old(self).state
            }),
            final(self).ivars == old(self).ivars,
            final(self).effects == old(self).effects,
    {
        self.state.servers.saving_formatted = false;
    }
}

} // verus!
