//! The retry policy that every upstream call follows.
//!
//! The caller makes an attempt, hands what came back to [`RetryPolicy::on_outcome`]
//! and does what the returned [`Step`] says. The policy owns the decisions:
//! how often to retry, when to wait, when to authenticate again and when to
//! give up.
use vstd::prelude::*;

verus! {

/// Attempts made for one call before it is given up.
pub const MAX_ATTEMPTS: u32 = 10;

/// Milliseconds to wait after upstream asked to slow down.
pub const RATE_LIMIT_WAIT_MS: u64 = 2000;

/// What one attempt gave.
#[derive(Copy, Clone, PartialEq, Eq, Structural)]
pub enum Outcome {
    /// A response with this HTTP status.
    Status(u16),
    /// No response: the request could not be sent or read.
    NoResponse,
}

/// What to do after an attempt.
#[derive(Copy, Clone, PartialEq, Eq, Structural)]
pub enum Step {
    /// The call succeeded: use the response.
    Done,
    /// Make the attempt again.
    Retry,
    /// Wait this many milliseconds, then make the attempt again.
    WaitThenRetry(u64),
    /// Authenticate again, then make the attempt again.
    Reauthenticate,
    /// Not permitted to see this document (403): skip it, the run goes on.
    Skip,
    /// A status that no retry can mend: stop the run.
    Fatal(u16),
    /// The attempts ran out: stop the run.
    Exhausted,
}

/// Whether the call is over after this step.
pub open spec fn is_final(s: Step) -> bool {
    !(s is Retry || s is WaitThenRetry || s is Reauthenticate)
}

/// The policy's state within one call.
pub struct RetryState {
    pub attempts: nat,
    pub reauthenticated: bool,
}

pub open spec fn fresh() -> RetryState {
    RetryState { attempts: 0, reauthenticated: false }
}

pub open spec fn is_success(code: u16) -> bool {
    200 <= code < 300
}

pub open spec fn is_server_error(code: u16) -> bool {
    500 <= code < 600
}

/// The step after one more attempt with outcome `o`, and the state after it.
pub open spec fn decide(st: RetryState, o: Outcome) -> (Step, RetryState) {
    let made = st.attempts + 1;
    let next = RetryState { attempts: made, ..st };
    let retry_left = made < MAX_ATTEMPTS;
    match o {
        Outcome::NoResponse => (if retry_left { Step::Retry } else { Step::Exhausted }, next),
        Outcome::Status(code) => if is_success(code) {
            (Step::Done, next)
        } else if is_server_error(code) {
            (if retry_left { Step::Retry } else { Step::Exhausted }, next)
        } else if code == 401 {
            if st.reauthenticated {
                (Step::Fatal(code), next)
            } else if retry_left {
                (Step::Reauthenticate, RetryState { attempts: made, reauthenticated: true })
            } else {
                (Step::Exhausted, next)
            }
        } else if code == 403 {
            (Step::Skip, next)
        } else if code == 429 {
            (if retry_left { Step::WaitThenRetry(RATE_LIMIT_WAIT_MS) } else { Step::Exhausted }, next)
        } else {
            (Step::Fatal(code), next)
        },
    }
}

/// The steps the policy takes on the given outcomes, up to the final one.
pub open spec fn steps(st: RetryState, outcomes: Seq<Outcome>) -> Seq<Step>
    decreases outcomes.len(),
{
    if outcomes.len() == 0 {
        Seq::empty()
    } else {
        let (s, next) = decide(st, outcomes[0]);
        if is_final(s) {
            seq![s]
        } else {
            seq![s] + steps(next, outcomes.subrange(1, outcomes.len() as int))
        }
    }
}

/// The retry policy of one call.
pub struct RetryPolicy {
    attempts: u32,
    reauthenticated: bool,
}

impl View for RetryPolicy {
    type V = RetryState;

    closed spec fn view(&self) -> RetryState {
        RetryState { attempts: self.attempts as nat, reauthenticated: self.reauthenticated }
    }
}

impl RetryPolicy {
    pub fn new() -> (r: RetryPolicy)
        ensures
            r@ == fresh(),
    {
        RetryPolicy { attempts: 0, reauthenticated: false }
    }

    /// The attempts made so far.
    pub fn attempts(&self) -> (r: u32)
        ensures
            r == self@.attempts,
    {
        self.attempts
    }

    /// Records an attempt and says what to do next. Only a call that is not
    /// over may make another attempt.
    pub fn on_outcome(&mut self, o: Outcome) -> (s: Step)
        requires
            old(self)@.attempts < MAX_ATTEMPTS,
        ensures
            (s, final(self)@) == decide(old(self)@, o),
            !is_final(s) ==> final(self)@.attempts < MAX_ATTEMPTS,
    {
        self.attempts = self.attempts + 1;
        let retry_left = self.attempts < MAX_ATTEMPTS;
        let s = match o {
            Outcome::NoResponse => if retry_left { Step::Retry } else { Step::Exhausted },
            Outcome::Status(code) => if 200 <= code && code < 300 {
                Step::Done
            } else if 500 <= code && code < 600 {
                if retry_left { Step::Retry } else { Step::Exhausted }
            } else if code == 401 {
                if self.reauthenticated {
                    Step::Fatal(code)
                } else if retry_left {
                    self.reauthenticated = true;
                    Step::Reauthenticate
                } else {
                    Step::Exhausted
                }
            } else if code == 403 {
                Step::Skip
            } else if code == 429 {
                if retry_left { Step::WaitThenRetry(RATE_LIMIT_WAIT_MS) } else { Step::Exhausted }
            } else {
                Step::Fatal(code)
            },
        };
        s
    }
}

proof fn lemma_steps_bounded(st: RetryState, outcomes: Seq<Outcome>)
    requires
        st.attempts < MAX_ATTEMPTS,
    ensures
        steps(st, outcomes).len() <= MAX_ATTEMPTS - st.attempts,
        forall|k: int| 0 <= k < steps(st, outcomes).len() - 1 ==> !is_final(#[trigger] steps(st, outcomes)[k]),
    decreases outcomes.len(),
{
    if outcomes.len() > 0 {
        let (s, next) = decide(st, outcomes[0]);
        if !is_final(s) {
            let rest = outcomes.subrange(1, outcomes.len() as int);
            lemma_steps_bounded(next, rest);
            let all = steps(st, outcomes);
            assert(all == seq![s] + steps(next, rest));
            assert forall|k: int| 0 <= k < all.len() - 1 implies !is_final(#[trigger] all[k]) by {
                if k > 0 {
                    assert(all[k] == steps(next, rest)[k - 1]);
                }
            }
        }
    }
}

/// Whatever upstream answers, one call makes at most [`MAX_ATTEMPTS`]
/// attempts: the policy never retries without end.
pub proof fn attempts_are_bounded(outcomes: Seq<Outcome>)
    ensures
        steps(fresh(), outcomes).len() <= MAX_ATTEMPTS,
{
    lemma_steps_bounded(fresh(), outcomes);
}

proof fn lemma_server_errors(st: RetryState, outcomes: Seq<Outcome>)
    requires
        st.attempts < MAX_ATTEMPTS,
        outcomes.len() >= MAX_ATTEMPTS - st.attempts,
        forall|k: int| 0 <= k < outcomes.len() ==> #[trigger] outcomes[k] == Outcome::Status(500),
    ensures
        steps(st, outcomes).len() == MAX_ATTEMPTS - st.attempts,
        steps(st, outcomes).last() == Step::Exhausted,
        forall|k: int| 0 <= k < steps(st, outcomes).len() - 1 ==> #[trigger] steps(st, outcomes)[k] == Step::Retry,
    decreases outcomes.len(),
{
    let (s, next) = decide(st, outcomes[0]);
    assert(outcomes[0] == Outcome::Status(500));
    if st.attempts + 1 < MAX_ATTEMPTS {
        let rest = outcomes.subrange(1, outcomes.len() as int);
        assert forall|k: int| 0 <= k < rest.len() implies #[trigger] rest[k] == Outcome::Status(500) by {
            assert(rest[k] == outcomes[k + 1]);
        }
        lemma_server_errors(next, rest);
        let all = steps(st, outcomes);
        assert(all == seq![s] + steps(next, rest));
        assert forall|k: int| 0 <= k < all.len() - 1 implies #[trigger] all[k] == Step::Retry by {
            if k > 0 {
                assert(all[k] == steps(next, rest)[k - 1]);
            }
        }
    }
}

/// A call whose every attempt meets a server error (500) is given up as
/// exhausted after exactly [`MAX_ATTEMPTS`] attempts, each one before the last
/// being retried.
pub proof fn server_errors_exhaust_after_bound(outcomes: Seq<Outcome>)
    requires
        outcomes.len() >= MAX_ATTEMPTS,
        forall|k: int| 0 <= k < outcomes.len() ==> #[trigger] outcomes[k] == Outcome::Status(500),
    ensures
        steps(fresh(), outcomes).len() == MAX_ATTEMPTS,
        steps(fresh(), outcomes).last() == Step::Exhausted,
        forall|k: int| 0 <= k < MAX_ATTEMPTS - 1 ==> #[trigger] steps(fresh(), outcomes)[k] == Step::Retry,
{
    lemma_server_errors(fresh(), outcomes);
}

} // verus!
