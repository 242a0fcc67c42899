//! When frames are drawn: at once when the display is ready for another,
//! otherwise at its next refresh; and how the caret blinks in between.

use crate::state::{Effect, EditorView, Ivars, LayoutKey, Pacing, State, Status};
use vstd::prelude::*;

verus! {

/// Each half of a caret blink, in milliseconds: the macOS default.
pub const CARET_BLINK: u64 = 530;

/// Whether the caret is showing `since` the last input, and how long until
/// that changes, both in milliseconds. It starts in the on half, so typing
/// keeps it solid.
pub fn caret_phase(since: u64) -> (phase: (bool, u64))
    ensures
        phase.0 == ((since / CARET_BLINK) % 2 == 0),
        phase.1 == CARET_BLINK - since % CARET_BLINK,
{
    (since / CARET_BLINK % 2 == 0, CARET_BLINK - since % CARET_BLINK)
}

/// The caret is solid for a whole phase after input.
pub proof fn the_caret_is_solid_after_input(since: u64)
    requires
        since < CARET_BLINK,
    ensures
        (since / CARET_BLINK) % 2 == 0,
        CARET_BLINK - since % CARET_BLINK == CARET_BLINK - since,
{
}

/// It changes when the time given is over, and not before.
pub proof fn the_caret_changes_on_time(since: u64, later: u64)
    requires
        since + later <= u64::MAX,
        later <= CARET_BLINK - since % CARET_BLINK,
    ensures
        0 < CARET_BLINK - since % CARET_BLINK <= CARET_BLINK,
        later < CARET_BLINK - since % CARET_BLINK ==> ((since + later) / (CARET_BLINK as int)) % 2 == (
        since / CARET_BLINK) % 2,
        later == CARET_BLINK - since % CARET_BLINK ==> ((since + later) / (CARET_BLINK as int)) % 2 != (
        since / CARET_BLINK) % 2,
{
    let p = CARET_BLINK as int;
    let q = since as int / p;
    let r = since as int % p;
    assert(since as int == p * q + r) by {
        vstd::arithmetic::div_mod::lemma_fundamental_div_mod(since as int, p);
    }
    if later < p - r {
        assert((since + later) / p == q) by {
            vstd::arithmetic::div_mod::lemma_fundamental_div_mod_converse(
                (since + later) as int,
                p,
                q,
                r + later,
            );
        }
    } else {
        assert((since + later) / p == q + 1) by {
            assert(p * (q + 1) == p * q + p) by (nonlinear_arith);
            vstd::arithmetic::div_mod::lemma_fundamental_div_mod_converse(
                (since + later) as int,
                p,
                q + 1,
                0,
            );
        }
    }
}

/// The frame's timing against what was seen so far.
#[derive(Clone, Copy, PartialEq, Eq, Structural, Debug)]
pub enum Frame {
    /// The view has no size: nothing to draw into.
    NoRoom,
    /// Nothing reached the screen.
    Failed,
    /// The frame was presented.
    Presented,
}

/// A frame that was drawn.
#[derive(Clone, Copy, PartialEq, Eq, Structural, Debug)]
pub struct Drawn {
    /// Where things are now.
    pub layout: LayoutKey,
    /// Whether text is still being shaped.
    pub unshaped: bool,
    /// Whether the window has the keyboard.
    pub key_window: bool,
    /// Whether the assistant is turned off.
    pub alone: bool,
    /// Whether the terminal panel has a place on the screen.
    pub panel: bool,
}

/// The input that is timed, when another one comes at `at`.
pub open spec fn oldest_input(pending: Option<u64>, at: u64) -> Option<u64> {
    match pending {
        Some(first) => Some(first),
        None => Some(at),
    }
}

impl EditorView {
    /// Marks the view as needing a redraw, with no latency implications.
    ///
    /// Most redraws are not responses to a keypress: a resize, a folder
    /// opening, a modal panel closing. Timing those as input latency is how a
    /// save dialog left open for three seconds ends up reported as a
    /// three-second keystroke.
    pub fn request_redraw(&mut self)
        ensures
            final(self).marks(*old(self), old(self).state, Seq::empty()),
    {
        self.state.frame.cursor_rects = None;
        self.ivars.needs_redraw = true;
        assert(self.effects@ =~= old(self).effects@ + Seq::<Effect>::empty());
    }

    /// Records that a human pressed a key or clicked at `at`.
    ///
    /// Only the oldest unpresented input is kept: if three keystrokes land
    /// inside one refresh, the latency that matters is how long the first one
    /// waited to appear.
    pub fn note_input(&mut self, at: u64)
        ensures
            final(self).ivars == (Ivars { needs_redraw: true, ..old(self).ivars }),
            final(self).effects == old(self).effects,
            final(self).state == (State {
                frame: Pacing {
                    caret_since: at,
                    pending_input: oldest_input(old(self).state.frame.pending_input, at),
                    ..old(self).state.frame
                },
                ..old(self).state
            }),
    {
        self.ivars.needs_redraw = true;
        self.state.frame.caret_since = at;
        if self.state.frame.pending_input.is_none() {
            self.state.frame.pending_input = Some(at);
        }
    }

    /// Draws now if the display is ready for another frame, otherwise arms
    /// the display link to draw at the next refresh.
    ///
    /// This is the whole frame-pacing policy. Drawing straight from the event
    /// handler is the lowest-latency thing to do and is what happens for
    /// ordinary typing, which is far slower than the refresh rate. Input that
    /// outruns the display (key repeat, a trackpad flick, a resize storm) is
    /// deferred to the next refresh, which makes one frame of it.
    pub fn pump(&mut self, now: u64)
        ensures
            old(self).ivars.handling_key ==> final(self).marks(
                *old(self),
                old(self).state,
                Seq::empty(),
            ),
            !old(self).ivars.handling_key ==> final(self).becomes(
                *old(self),
                old(self).state,
                old(self).pumping(now),
            ),
    {
        if self.ivars.handling_key {
            self.request_redraw();
            return;
        }
        self.ask(Effect::SyncNativePreview);
        let ready = match self.state.frame.last_draw {
            Some(at) => if now >= at {
                let interval = self.state.frame.interval;
                let whole = interval / 1_000;
                now - at > whole || (now - at == whole && interval % 1_000 == 0)
            } else {
                false
            },
            None => true,
        };
        if ready {
            self.ask(Effect::Draw);
        } else {
            self.ask(Effect::ResumeDisplayLink);
        }
        assert(self.effects@ =~= old(self).effects@ + old(self).pumping(now));
    }

    /// Asks for a redraw and gets the frame under way.
    pub fn show(&mut self, now: u64)
        ensures
            final(self).shows(*old(self), old(self).state, Seq::empty(), now),
    {
        self.request_redraw();
        self.pump(now);
        assert(self.effects@ =~= old(self).effects@ + (Seq::<Effect>::empty() + old(self).pumping(
            now,
        )));
    }

    /// Unpauses the display link.
    pub fn resume_display_link(&mut self)
        ensures
            final(self).becomes(*old(self), old(self).state, seq![Effect::ResumeDisplayLink]),
    {
        self.ask(Effect::ResumeDisplayLink);
    }

    /// Whether the caret is blinking now: the setting allows it, the window
    /// has the keyboard, and this is not a test instance, whose captures must
    /// not depend on when they were taken.
    pub fn caret_blinks(&self, key_window: bool) -> (r: bool)
        ensures
            r == (self.state.frame.caret_blink && !self.ivars.testing && key_window),
    {
        self.state.frame.caret_blink && !self.ivars.testing && key_window
    }

    /// What keeps the caret blinking: one redraw at the next toggle, in place
    /// of any already scheduled.
    pub open spec fn blink_work(&self, key_window: bool, now: u64) -> Seq<Effect> {
        let since = self.state.frame.caret_since;
        if self.state.frame.caret_blink && !self.ivars.testing && key_window {
            seq![
                Effect::CancelCaretBlink,
                Effect::ArmCaretBlink(
                    (CARET_BLINK - (if now >= since {
                        now - since
                    } else {
                        0
                    }) % (CARET_BLINK as int)) as u64,
                ),
            ]
        } else {
            seq![Effect::CancelCaretBlink]
        }
    }

    /// Schedules one redraw at the next blink toggle, replacing any already
    /// scheduled.
    pub fn arm_caret_blink(&mut self, key_window: bool, now: u64)
        ensures
            final(self).becomes(
                *old(self),
                old(self).state,
                old(self).blink_work(key_window, now),
            ),
    {
        let blinks = self.caret_blinks(key_window);
        self.ask(Effect::CancelCaretBlink);
        if blinks {
            let since: u64 = if now >= self.state.frame.caret_since {
                now - self.state.frame.caret_since
            } else {
                0
            };
            self.ask(Effect::ArmCaretBlink(caret_phase(since).1));
            assert(self.effects@ =~= old(self).effects@ + seq![
                Effect::CancelCaretBlink,
                Effect::ArmCaretBlink((CARET_BLINK - since % CARET_BLINK) as u64),
            ]);
        }
    }

    /// Starts drawing: counts a frame drawn while a key is being handled.
    pub fn begin_draw(&mut self)
        requires
            old(self).ivars.draws_during_key_handler < usize::MAX,
        ensures
            final(self).state == old(self).state,
            final(self).effects == old(self).effects,
            final(self).ivars == (Ivars {
                draws_during_key_handler: if old(self).ivars.handling_key {
                    (old(self).ivars.draws_during_key_handler + 1) as usize
                } else {
                    old(self).ivars.draws_during_key_handler
                },
                ..old(self).ivars
            }),
    {
        if self.ivars.handling_key {
            self.ivars.draws_during_key_handler += 1;
        }
    }

    /// This is `before` with its frame on the screen.
    pub open spec fn presents(&self, before: EditorView, drawn: Drawn, now: u64) -> bool {
        &&& self.ivars == (Ivars { needs_redraw: drawn.unshaped, ..before.ivars })
        &&& self.state == (State {
            frame: Pacing {
                last_draw: Some(now),
                cursor_rects: Some(drawn.layout),
                pending_input: None,
                title_sync_pending: false,
                ..before.state.frame
            },
            ..before.state
        })
        &&& self.effects@ == before.effects@ + (before.blink_work(drawn.key_window, now)
            + after_frame(before, drawn))
    }

    /// Notes that the frame is on the screen.
    fn present_frame(&mut self, drawn: Drawn, now: u64)
        ensures
            old(self).state.wf() ==> final(self).state.wf(),
            final(self).presents(*old(self), drawn, now),
    {
        self.arm_caret_blink(drawn.key_window, now);
        let ghost blink = old(self).blink_work(drawn.key_window, now);
        self.ivars.needs_redraw = drawn.unshaped;
        if drawn.unshaped {
            self.ask(Effect::ResumeDisplayLink);
        }
        self.state.frame.last_draw = Some(now);
        let moved = self.state.frame.cursor_rects != Some(drawn.layout);
        if moved {
            self.state.frame.cursor_rects = Some(drawn.layout);
            self.ask(Effect::InvalidateCursorRects);
        }
        self.state.frame.pending_input = None;
        let sync_title = self.state.frame.title_sync_pending;
        self.state.frame.title_sync_pending = false;
        if sync_title {
            self.ask(Effect::SyncTitle);
        }
        assert(self.effects@ =~= old(self).effects@ + (blink + after_frame(*old(self), drawn)));
    }

    /// This is `before` after a frame that reached the screen: the caret goes
    /// on blinking, the pointer's shapes and the title follow, and the
    /// assistant and the terminal sessions hear of it.
    pub open spec fn draws(&self, before: EditorView, drawn: Drawn, now: u64) -> bool {
        exists|presented: EditorView, told: EditorView|
            {
                &&& #[trigger] presented.presents(before, drawn, now)
                &&& #[trigger] told.minds_assistant(presented, drawn.alone, now)
                &&& self.fits_terminals(told, drawn.panel)
            }
    }

    /// What follows a frame, presented or not. Returns how long the oldest
    /// input waited for this frame.
    ///
    /// A frame that did not reach the screen leaves the request standing and
    /// the pending input its timestamp, so the frame that does appear is timed
    /// honestly.
    pub fn draw_now(&mut self, frame: Frame, drawn: Drawn, now: u64) -> (waited: Option<u64>)
        requires
            old(self).state.wf(),
        ensures
            final(self).state.wf(),
            match frame {
                Frame::NoRoom => {
                    &&& waited is None
                    &&& final(self).state == old(self).state
                    &&& final(self).effects == old(self).effects
                    &&& final(self).ivars == (Ivars { needs_redraw: false, ..old(self).ivars })
                },
                Frame::Failed => {
                    &&& waited is None
                    &&& final(self).state == old(self).state
                    &&& final(self).ivars == (Ivars { needs_redraw: true, ..old(self).ivars })
                    &&& final(self).effects@ == old(self).effects@ + seq![Effect::ResumeDisplayLink]
                },
                Frame::Presented => {
                    &&& waited == (match old(self).state.frame.pending_input {
                        Some(at) => Some(
                            if now >= at {
                                (now - at) as u64
                            } else {
                                0u64
                            },
                        ),
                        None => None,
                    })
                    &&& final(self).draws(*old(self), drawn, now)
                },
            },
    {
        match frame {
            Frame::NoRoom => {
                // Nothing to draw into, and retrying every refresh until there
                // is would burn battery for a window nobody can see.
                self.ivars.needs_redraw = false;
                return None;
            },
            Frame::Failed => {
                self.ivars.needs_redraw = true;
                self.resume_display_link();
                return None;
            },
            Frame::Presented => {},
        }
        let waited: Option<u64> = match self.state.frame.pending_input {
            Some(at) => Some(
                if now >= at {
                    now - at
                } else {
                    0
                },
            ),
            None => None,
        };
        self.present_frame(drawn, now);
        let ghost presented = *self;
        assert(presented.presents(*old(self), drawn, now));
        self.claude_after_frame(drawn.alone, now);
        let ghost told = *self;
        assert(told.minds_assistant(presented, drawn.alone, now));
        self.terminal_after_frame(drawn.panel);
        waited
    }

    /// Starts an update check unless one is already out. Asking while a
    /// launch check is out makes it an asked one.
    pub fn start_update_check(&mut self, manual: bool)
        ensures
            match old(self).state.status.update {
                Some(asked) => final(self).becomes(
                    *old(self),
                    State {
                        status: Status { update: Some(asked || manual), ..old(self).state.status },
                        ..old(self).state
                    },
                    seq![Effect::ResumeDisplayLink],
                ),
                None => final(self).becomes(
                    *old(self),
                    State {
                        status: Status { update: Some(manual), ..old(self).state.status },
                        ..old(self).state
                    },
                    seq![Effect::CheckForUpdate, Effect::ResumeDisplayLink],
                ),
            },
    {
        match self.state.status.update {
            Some(asked) => {
                self.state.status.update = Some(asked || manual);
            },
            None => {
                self.state.status.update = Some(manual);
                self.ask(Effect::CheckForUpdate);
            },
        }
        self.resume_display_link();
        assert(old(self).state.status.update is None ==> self.effects@ =~= old(self).effects@ + seq![
            Effect::CheckForUpdate,
            Effect::ResumeDisplayLink,
        ]);
    }
}

/// What is asked for after a frame was presented.
pub open spec fn after_frame(view: EditorView, drawn: Drawn) -> Seq<Effect> {
    (if drawn.unshaped {
        seq![Effect::ResumeDisplayLink]
    } else {
        Seq::empty()
    }) + (if view.state.frame.cursor_rects != Some(drawn.layout) {
        seq![Effect::InvalidateCursorRects]
    } else {
        Seq::empty()
    }) + (if view.state.frame.title_sync_pending {
        seq![Effect::SyncTitle]
    } else {
        Seq::empty()
    })
}

/// The oldest input is the one that is timed: a later one before the frame
/// does not replace it.
pub proof fn the_oldest_input_is_kept(pending: Option<u64>, first: u64, second: u64)
    ensures
        oldest_input(oldest_input(pending, first), second) == oldest_input(pending, first),
        pending is Some ==> oldest_input(pending, first) == pending,
{
}

} // verus!
