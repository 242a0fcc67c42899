//! The assistant's way into the window: the edits it proposes and what it is
//! told.

use crate::state::{Claude, EditorView, Effect, Position, State};
use crate::table::Table;
use vstd::prelude::*;

verus! {

/// An edit the assistant proposes, in a tab of its own.
pub struct Review {
    /// What the assistant calls its tab.
    pub tab_name: String,
    /// The file it is about.
    pub path: String,
    /// It has been answered.
    pub decided: bool,
}

/// The connection, while a project is open.
pub struct Bridge {
    pub root: String,
    pub port: u16,
    /// Proposed edits, by the id of their tab's buffer.
    pub reviews: Table<Review>,
    /// The assistant is there.
    pub connected: bool,
    /// The selection of the last frame.
    pub seen: Option<Seen>,
    /// Since when the selection has been still, if the assistant has not heard of it.
    pub changed_at: Option<u64>,
    /// What the assistant was last told.
    pub sent: Option<Selection>,
}

/// A document and what is selected in it.
#[derive(Clone, Copy, PartialEq, Eq, Structural, Debug)]
pub struct Seen {
    pub buffer: u64,
    pub start: usize,
    pub end: usize,
}

/// A selection as the assistant is told it.
pub struct Selection {
    pub path: String,
    pub text: String,
    pub start: Position,
    pub end: Position,
}

impl Bridge {
    /// No tab has two reviews.
    pub open spec fn wf(&self) -> bool {
        self.reviews.wf()
    }

    /// Whether the tab of buffer `id` is a review.
    pub open spec fn has_review(&self, id: u64) -> bool {
        self.reviews@.contains_key(id)
    }
}

impl Bridge {
    /// Whether `id` is a review nobody has answered.
    pub open spec fn awaits(&self, id: u64) -> bool {
        self.has_review(id) && !self.reviews@[id].decided
    }

    /// This is `before` with the reviews `reviews`.
    pub open spec fn with_reviews(&self, before: Bridge) -> bool {
        *self == (Bridge { reviews: self.reviews, ..before })
    }

    /// Marks the review `id` as answered. Returns whether it was waiting for
    /// an answer.
    pub fn decide(&mut self, id: u64) -> (answered: bool)
        requires
            old(self).wf(),
        ensures
            final(self).wf(),
            answered == old(self).awaits(id),
            final(self).with_reviews(*old(self)),
            !answered ==> *final(self) == *old(self),
            answered ==> final(self).reviews@ == old(self).reviews@.insert(
                id,
                Review { decided: true, ..old(self).reviews@[id] },
            ),
    {
        let (tab_name, path) = match self.reviews.get(id) {
            Some(review) => {
                if review.decided {
                    return false;
                }
                (review.tab_name.clone(), review.path.clone())
            },
            None => {
                return false;
            },
        };
        self.reviews.insert(id, Review { tab_name, path, decided: true });
        true
    }
}

impl State {
    /// The state with another bridge.
    pub open spec fn with_bridge(self, bridge: Option<Bridge>) -> State {
        State { claude: Claude { bridge, ..self.claude }, ..self }
    }

    /// Whether `id` is a review nobody has answered.
    pub open spec fn awaits_review(&self, id: u64) -> bool {
        self.claude.bridge matches Some(bridge) && bridge.awaits(id)
    }
}

/// Whether `after` is `before` without the review of `id`.
pub open spec fn drops_review(after: State, before: State, id: u64) -> bool {
    &&& after == before.with_bridge(after.claude.bridge)
    &&& match (after.claude.bridge, before.claude.bridge) {
        (Some(new), Some(old)) => new.with_reviews(old) && new.reviews@ == old.reviews@.remove(id),
        (None, None) => true,
        _ => false,
    }
}

/// The answer a review gets when its tab is closed: closing it is answering
/// it.
pub open spec fn closing_answer(state: State, id: u64) -> Seq<Effect> {
    if state.awaits_review(id) {
        seq![Effect::DecideReview(id, false)]
    } else {
        Seq::empty()
    }
}

impl EditorView {
    /// Rejects the review of `id`, if it is one, and forgets it.
    pub fn forget_review(&mut self, id: u64)
        requires
            old(self).state.wf(),
        ensures
            final(self).state.wf(),
            drops_review(final(self).state, old(self).state, id),
            final(self).ivars == old(self).ivars,
            final(self).effects@ == old(self).effects@ + closing_answer(old(self).state, id),
    {
        let mut waiting = false;
        if let Some(bridge) = &mut self.state.claude.bridge {
            waiting = bridge.decide(id);
            let gone = bridge.reviews.remove(id);
        }
        proof {
            let before = old(self).state.claude.bridge;
            let after = self.state.claude.bridge;
            if before is Some {
                assert(after->0.reviews@ =~= before->0.reviews@.remove(id));
            }
        }
        if waiting {
            self.effects.push(Effect::DecideReview(id, false));
        }
        assert(self.effects@ =~= old(self).effects@ + closing_answer(old(self).state, id));
    }
}

} // verus!
