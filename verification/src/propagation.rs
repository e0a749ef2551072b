//! Waiting until a change has reached all of the provider's name servers.
//!
//! The provider is asked for the status of the change again and again, a
//! fixed time apart, until it reports the change as in sync, the asking
//! fails, or the number of polls reaches its ceiling. The asking and the
//! waiting between polls are the caller's part. A wait that times out says
//! nothing against the change: it was accepted before the wait began.

use crate::text::same_text;
use vstd::prelude::*;

verus! {

broadcast use vstd::string::group_string_axioms;

/// The largest number of polls of one wait.
pub const MAX_POLLS: u32 = 60;

/// The time between two polls, in seconds.
pub const POLL_INTERVAL_SECS: u64 = 5;

/// What came of one poll.
#[derive(Debug, Clone, PartialEq, Eq)]
pub enum PollOutcome {
    /// The provider reported the status of the change, in its own letters:
    /// `PENDING`, `INSYNC`.
    Status(String),
    /// The provider could not be asked; the text is the reason.
    Error(String),
}

/// The step of a wait at which the provider is asked.
#[derive(Debug)]
pub struct Polling {
    polls: u32,
}

/// Where a wait stands.
#[derive(Debug)]
pub enum Propagation {
    /// The provider is to be asked.
    Poll(Polling),
    /// The change is in sync.
    Propagated,
    /// The ceiling was reached and the change was not yet in sync.
    TimedOut,
    /// A poll failed for this reason.
    Failed(String),
}

/// Whether a status means that the change is in sync. Every other status,
/// known or not, means that it is not yet.
pub open spec fn in_sync(status: Seq<char>) -> bool {
    status == "INSYNC"@
}

impl PollOutcome {
    /// Whether the poll gave a status other than that of a change in sync.
    pub open spec fn pending(self) -> bool {
        self matches PollOutcome::Status(status) && !in_sync(status@)
    }

    /// Whether the poll gave the status of a change in sync.
    pub open spec fn synced(self) -> bool {
        self matches PollOutcome::Status(status) && in_sync(status@)
    }
}

/// Starts a wait: at its first poll.
pub fn wait_for_propagation() -> (r: Propagation)
    ensures
        r == Propagation::start(),
        r matches Propagation::Poll(first) && first.made() == 0,
{
    Propagation::Poll(Polling { polls: 0 })
}

impl Polling {
    #[verifier::type_invariant]
    spec fn below_ceiling(self) -> bool {
        self.polls < MAX_POLLS
    }

    /// The number of polls made before this one.
    pub closed spec fn made(self) -> nat {
        self.polls as nat
    }

    /// Where the wait stands once the provider was asked and `outcome` came
    /// of it.
    pub closed spec fn step(self, outcome: PollOutcome) -> Propagation {
        match outcome {
            PollOutcome::Error(reason) => Propagation::Failed(reason),
            PollOutcome::Status(status) => if in_sync(status@) {
                Propagation::Propagated
            } else if self.polls + 1 < MAX_POLLS {
                Propagation::Poll(Polling { polls: (self.polls + 1) as u32 })
            } else {
                Propagation::TimedOut
            },
        }
    }

    /// The number of polls made before this one, which is below the
    /// ceiling.
    pub fn polls_made(&self) -> (r: u32)
        ensures
            r == self.made(),
            r < MAX_POLLS,
    {
        proof {
            use_type_invariant(self);
        }
        self.polls
    }

    /// The time to let pass before this poll, in seconds: none before the
    /// first, the fixed interval before every other.
    pub fn delay_secs(&self) -> (r: u64)
        ensures
            r == if self.made() == 0 {
                0
            } else {
                POLL_INTERVAL_SECS
            },
    {
        if self.polls == 0 {
            0
        } else {
            POLL_INTERVAL_SECS
        }
    }

    /// Takes what came of the poll. A change in sync ends the wait, and so
    /// does a poll that failed; after any other status the provider is asked
    /// again, unless this was the last poll that the ceiling allows.
    pub fn observe(self, outcome: &PollOutcome) -> (r: Propagation)
        ensures
            r == self.step(*outcome),
            self.made() < MAX_POLLS,
            *outcome matches PollOutcome::Error(reason) ==> r == Propagation::Failed(reason),
            outcome.synced() ==> r is Propagated,
            outcome.pending() && self.made() + 1 < MAX_POLLS ==> (r matches Propagation::Poll(next)
                && next.made() == self.made() + 1),
            outcome.pending() && self.made() + 1 >= MAX_POLLS ==> r is TimedOut,
    {
        proof {
            use_type_invariant(&self);
        }
        match outcome {
            PollOutcome::Error(reason) => Propagation::Failed(reason.clone()),
            PollOutcome::Status(status) => {
                if same_text(status.as_str(), "INSYNC") {
                    Propagation::Propagated
                } else if self.polls + 1 < MAX_POLLS {
                    Propagation::Poll(Polling { polls: self.polls + 1 })
                } else {
                    Propagation::TimedOut
                }
            },
        }
    }
}

impl Propagation {
    /// Where a wait starts: at its first poll.
    pub closed spec fn start() -> Propagation {
        Propagation::Poll(Polling { polls: 0 })
    }

    /// Where the wait stands once its polls, one after the other, have given
    /// `outcomes` in this order. Outcomes left over when the wait has ended
    /// are not looked at.
    pub open spec fn after(self, outcomes: Seq<PollOutcome>) -> Propagation
        decreases outcomes.len(),
    {
        match self {
            Propagation::Poll(polling) => if outcomes.len() > 0 {
                polling.step(outcomes.first()).after(outcomes.drop_first())
            } else {
                self
            },
            _ => self,
        }
    }

    /// How many of `outcomes` the wait takes before it ends or they run out:
    /// the number of polls that are made.
    pub open spec fn polls(self, outcomes: Seq<PollOutcome>) -> nat
        decreases outcomes.len(),
    {
        match self {
            Propagation::Poll(polling) => if outcomes.len() > 0 {
                1 + polling.step(outcomes.first()).polls(outcomes.drop_first())
            } else {
                0
            },
            _ => 0,
        }
    }
}

/// A wait ends as propagated with the first poll that finds the change in
/// sync: where the poll at `i`, within the ceiling, is the first that does
/// and every poll before it gave another status, the wait ends there after
/// `i + 1` polls.
pub proof fn lemma_propagated_at_first_sync(outcomes: Seq<PollOutcome>, i: int)
    requires
        0 <= i < outcomes.len(),
        i < MAX_POLLS,
        outcomes[i].synced(),
        forall|j: int| 0 <= j < i ==> (#[trigger] outcomes[j]).pending(),
    ensures
        Propagation::start().after(outcomes) is Propagated,
        Propagation::start().polls(outcomes) == i + 1,
{
    lemma_sync_from(0, outcomes, i);
}

/// A wait whose polls never find the change in sync times out: it ends when
/// the ceiling is reached, after as many polls as the ceiling allows, and
/// until then it goes on asking.
pub proof fn lemma_times_out_at_ceiling(outcomes: Seq<PollOutcome>)
    requires
        forall|j: int| 0 <= j < outcomes.len() ==> (#[trigger] outcomes[j]).pending(),
    ensures
        outcomes.len() >= MAX_POLLS ==> Propagation::start().after(outcomes) is TimedOut
            && Propagation::start().polls(outcomes) == MAX_POLLS,
        outcomes.len() < MAX_POLLS ==> (Propagation::start().after(
            outcomes,
        ) matches Propagation::Poll(next) && next.made() == outcomes.len())
            && Propagation::start().polls(outcomes) == outcomes.len(),
{
    lemma_pending_from(0, outcomes);
}

/// No wait goes on for ever: whatever the polls give, the provider is asked
/// at most as often as the ceiling allows, and after that many polls the
/// wait has ended.
pub proof fn lemma_wait_ends(outcomes: Seq<PollOutcome>)
    ensures
        Propagation::start().polls(outcomes) <= MAX_POLLS,
        outcomes.len() >= MAX_POLLS ==> !(Propagation::start().after(outcomes) is Poll),
{
    lemma_ends_from(0, outcomes);
}

proof fn lemma_sync_from(made: int, outcomes: Seq<PollOutcome>, i: int)
    requires
        0 <= made,
        0 <= i < outcomes.len(),
        made + i < MAX_POLLS,
        outcomes[i].synced(),
        forall|j: int| 0 <= j < i ==> (#[trigger] outcomes[j]).pending(),
    ensures
        Propagation::Poll(Polling { polls: made as u32 }).after(outcomes) is Propagated,
        Propagation::Poll(Polling { polls: made as u32 }).polls(outcomes) == i + 1,
    decreases i,
{
    let polling = Polling { polls: made as u32 };
    let rest = outcomes.drop_first();
    if i == 0 {
        assert(polling.step(outcomes.first()) is Propagated);
        assert(Propagation::Propagated.after(rest) is Propagated);
        assert(Propagation::Propagated.polls(rest) == 0);
    } else {
        assert(outcomes.first().pending());
        assert forall|j: int| 0 <= j < i - 1 implies (#[trigger] rest[j]).pending() by {
            assert(rest[j] == outcomes[j + 1]);
        }
        assert(rest[i - 1] == outcomes[i]);
        lemma_sync_from(made + 1, rest, i - 1);
    }
}

proof fn lemma_pending_from(made: int, outcomes: Seq<PollOutcome>)
    requires
        0 <= made < MAX_POLLS,
        forall|j: int| 0 <= j < outcomes.len() ==> (#[trigger] outcomes[j]).pending(),
    ensures
        ({
            let from = Propagation::Poll(Polling { polls: made as u32 });
            let left = MAX_POLLS - made;
            &&& outcomes.len() >= left ==> from.after(outcomes) is TimedOut && from.polls(outcomes)
                == left
            &&& outcomes.len() < left ==> from.after(outcomes) == Propagation::Poll(
                Polling { polls: (made + outcomes.len()) as u32 },
            ) && from.polls(outcomes) == outcomes.len()
        }),
    decreases outcomes.len(),
{
    let polling = Polling { polls: made as u32 };
    if outcomes.len() > 0 {
        let rest = outcomes.drop_first();
        assert(outcomes.first().pending());
        assert forall|j: int| 0 <= j < rest.len() implies (#[trigger] rest[j]).pending() by {
            assert(rest[j] == outcomes[j + 1]);
        }
        if made + 1 < MAX_POLLS {
            lemma_pending_from(made + 1, rest);
        } else {
            assert(polling.step(outcomes.first()) is TimedOut);
            assert(Propagation::TimedOut.after(rest) is TimedOut);
            assert(Propagation::TimedOut.polls(rest) == 0);
        }
    }
}

proof fn lemma_ends_from(made: int, outcomes: Seq<PollOutcome>)
    requires
        0 <= made < MAX_POLLS,
    ensures
        ({
            let from = Propagation::Poll(Polling { polls: made as u32 });
            let left = MAX_POLLS - made;
            &&& from.polls(outcomes) <= left
            &&& outcomes.len() >= left ==> !(from.after(outcomes) is Poll)
        }),
    decreases outcomes.len(),
{
    let polling = Polling { polls: made as u32 };
    if outcomes.len() > 0 {
        let rest = outcomes.drop_first();
        let next = polling.step(outcomes.first());
        match next {
            Propagation::Poll(p) => {
                assert(p.polls == made + 1);
                lemma_ends_from(made + 1, rest);
            },
            _ => {
                assert(next.after(rest) == next);
                assert(next.polls(rest) == 0);
            },
        }
    }
}

} // verus!
