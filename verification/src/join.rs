//! Joining the network: the credentials, and the state machine that retries
//! with exponential backoff until the network lets the node in.

use vstd::prelude::*;

verus! {

/// Largest exponent of the backoff: the wait stops growing at `2^11` seconds.
pub const MAX_BACKOFF_EXPONENT: u32 = 11;

/// Two to the power of `exponent`.
pub open spec fn two_to(exponent: nat) -> nat
    decreases exponent,
{
    if exponent == 0 {
        1
    } else {
        2 * two_to((exponent - 1) as nat)
    }
}

/// An exponent held to `MAX_BACKOFF_EXPONENT`.
pub open spec fn clamped(exponent: nat) -> nat {
    if exponent > MAX_BACKOFF_EXPONENT {
        MAX_BACKOFF_EXPONENT as nat
    } else {
        exponent
    }
}

/// Seconds to wait before attempt `n`, the first attempt being attempt 0:
/// nothing before the first, then 1, 2, 4, ... up to 2048 and no more.
pub open spec fn wait_before_attempt(n: nat) -> nat {
    if n == 0 {
        0
    } else {
        two_to(clamped((n - 1) as nat))
    }
}

/// How an attempt to join ended.
#[derive(Clone, Copy, Debug, PartialEq, Eq, Structural)]
pub enum JoinOutcome {
    /// The network accepted the node.
    Accepted,
    /// No accept arrived.
    Rejected,
    /// The radio reported an error.
    Failed,
}

/// Where the join stands.
#[derive(Clone, Copy, Debug, PartialEq, Eq, Structural)]
pub enum JoinState {
    /// Not joined; `failures` attempts have failed, counted up to
    /// `MAX_BACKOFF_EXPONENT`.
    Attempting { failures: u32 },
    /// Joined. This state is final.
    Joined,
}

/// What to do after an attempt.
#[derive(Clone, Copy, Debug, PartialEq, Eq, Structural)]
pub enum JoinAction {
    /// The node has joined: hand control back.
    Finished,
    /// Wait, then attempt again.
    RetryAfter { seconds: u64 },
}

/// The state machine's rule.
pub open spec fn join_step(state: JoinState, outcome: JoinOutcome) -> (JoinState, JoinAction) {
    match state {
        JoinState::Joined => (JoinState::Joined, JoinAction::Finished),
        JoinState::Attempting { failures } => match outcome {
            JoinOutcome::Accepted => (JoinState::Joined, JoinAction::Finished),
            _ => (
                JoinState::Attempting { failures: clamped(failures as nat + 1) as u32 },
                JoinAction::RetryAfter { seconds: two_to(clamped(failures as nat)) as u64 },
            ),
        },
    }
}

/// The state after a run of attempts.
pub open spec fn join_run(state: JoinState, outcomes: Seq<JoinOutcome>) -> JoinState
    decreases outcomes.len(),
{
    if outcomes.len() == 0 {
        state
    } else {
        join_step(join_run(state, outcomes.drop_last()), outcomes.last()).0
    }
}

/// The wait never exceeds 2048 seconds.
pub proof fn lemma_backoff_bounded(exponent: nat)
    ensures
        1 <= two_to(clamped(exponent)) <= 2048,
{
    reveal_with_fuel(two_to, 12);
}

impl JoinState {
    /// The state in which a join begins: nothing has failed yet, and the
    /// first attempt is due at once.
    pub fn new() -> (state: JoinState)
        ensures
            state == (JoinState::Attempting { failures: 0 }),
    {
        JoinState::Attempting { failures: 0 }
    }

    /// Takes in the outcome of an attempt. Returns what to do next. The
    /// machine never gives up: short of `Accepted`, it asks for another
    /// attempt.
    pub fn on_outcome(&mut self, outcome: JoinOutcome) -> (action: JoinAction)
        ensures
            (*final(self), action) == join_step(*old(self), outcome),
    {
        match *self {
            JoinState::Joined => JoinAction::Finished,
            JoinState::Attempting { failures } => match outcome {
                JoinOutcome::Accepted => {
                    *self = JoinState::Joined;
                    JoinAction::Finished
                },
                _ => {
                    let exponent: u32 = if failures > MAX_BACKOFF_EXPONENT {
                        MAX_BACKOFF_EXPONENT
                    } else {
                        failures
                    };
                    let mut seconds: u64 = 1;
                    let mut k: u32 = 0;
                    while k < exponent
                        invariant
                            k <= exponent <= MAX_BACKOFF_EXPONENT,
                            seconds == two_to(k as nat),
                            seconds <= 2048,
                        decreases exponent - k,
                    {
                        proof {
                            lemma_backoff_bounded((k + 1) as nat);
                        }
                        seconds = seconds * 2;
                        k += 1;
                    }
                    *self = JoinState::Attempting {
                        failures: if exponent < MAX_BACKOFF_EXPONENT {
                            exponent + 1
                        } else {
                            MAX_BACKOFF_EXPONENT
                        },
                    };
                    JoinAction::RetryAfter { seconds }
                },
            },
        }
    }
}

/// The backoff schedule. After `n` failed attempts in a row from the start,
/// the machine is still attempting, with `n` failures on its count up to the
/// cap; and attempt `n`, when it fails too, is answered with the wait that is
/// due before attempt `n + 1`.
pub proof fn lemma_backoff_schedule(outcomes: Seq<JoinOutcome>, next: JoinOutcome)
    requires
        forall|i: int| 0 <= i < outcomes.len() ==> outcomes[i] != JoinOutcome::Accepted,
        next != JoinOutcome::Accepted,
    ensures
        join_run(JoinState::Attempting { failures: 0 }, outcomes) == (JoinState::Attempting {
            failures: clamped(outcomes.len()) as u32,
        }),
        join_step(join_run(JoinState::Attempting { failures: 0 }, outcomes), next).1 == (
        JoinAction::RetryAfter { seconds: wait_before_attempt(outcomes.len() + 1) as u64 }),
    decreases outcomes.len(),
{
    if outcomes.len() > 0 {
        lemma_backoff_schedule(outcomes.drop_last(), outcomes.last());
    }
}

/// The machine ends in success only: it has joined exactly when some attempt
/// was accepted, and until then it keeps attempting.
pub proof fn lemma_join_ends_in_success_only(outcomes: Seq<JoinOutcome>)
    ensures
        join_run(JoinState::Attempting { failures: 0 }, outcomes) is Joined <==> exists|i: int|
            0 <= i < outcomes.len() && outcomes[i] == JoinOutcome::Accepted,
    decreases outcomes.len(),
{
    if outcomes.len() > 0 {
        let earlier = outcomes.drop_last();
        lemma_join_ends_in_success_only(earlier);
        if exists|i: int| 0 <= i < earlier.len() && earlier[i] == JoinOutcome::Accepted {
            let i = choose|i: int| 0 <= i < earlier.len() && earlier[i] == JoinOutcome::Accepted;
            assert(outcomes[i] == JoinOutcome::Accepted);
        }
        if exists|i: int| 0 <= i < outcomes.len() && outcomes[i] == JoinOutcome::Accepted {
            let i = choose|i: int| 0 <= i < outcomes.len() && outcomes[i] == JoinOutcome::Accepted;
            if i < earlier.len() {
                assert(earlier[i] == JoinOutcome::Accepted);
            }
        }
    }
}

} // verus!
