//! Waiting for a receipt.
//!
//! A transaction is executed some time after it was accepted, so its
//! receipt is asked for again and again: at most `budget` times, with a
//! fixed pause between two attempts. Only the answer "not found" is worth
//! another attempt; any other failure ends the waiting at once, and a
//! budget used up ends it as timed out.
//!
//! The waiting itself needs a clock, which this library does not have. So
//! the decisions are a state machine: the caller makes an attempt, reports
//! what it came to, and is told what to do next.

use crate::client::ClientError;
use crate::message::Receipt;
use vstd::prelude::*;

verus! {

/// Attempts made for each ticket after a batch was submitted.
pub const BATCH_BUDGET: u32 = 3;

/// Seconds between two attempts after a batch was submitted.
pub const BATCH_DELAY_SECS: u64 = 3;

/// Attempts made for each ticket while a container is imported.
pub const IMPORT_BUDGET: u32 = 10;

/// Seconds between two attempts while a container is imported.
pub const IMPORT_DELAY_SECS: u64 = 1;

/// What one attempt came to.
#[derive(Clone, Debug, PartialEq, Eq)]
pub enum Attempt<R, E> {
    /// The receipt is there.
    Found(R),
    /// The service knows of no receipt yet.
    NotFound,
    /// The attempt failed in another way.
    Failed(E),
}

/// How the waiting ended.
#[derive(Clone, Debug, PartialEq, Eq)]
pub enum Verdict<R, E> {
    /// The receipt was found.
    Done(R),
    /// Every attempt of the budget was answered with "not found".
    TimedOut,
    /// An attempt failed in another way and was not repeated.
    Failed(E),
}

/// What the caller is to do next.
#[derive(Clone, Debug, PartialEq, Eq)]
pub enum Action<R, E> {
    /// Pause for so many seconds, then make an attempt and report it.
    Fetch { after_secs: u64 },
    /// Stop: the waiting has ended.
    Finish(Verdict<R, E>),
}

/// The state of the waiting for one ticket.
#[derive(Clone, Copy, Debug, PartialEq, Eq)]
pub struct Poller {
    budget: u32,
    delay_secs: u64,
    made: u32,
}

/// What to do before any attempt was made.
pub open spec fn first_action<R, E>(budget: nat) -> Action<R, E> {
    if budget == 0 {
        Action::Finish(Verdict::TimedOut)
    } else {
        Action::Fetch { after_secs: 0 }
    }
}

/// What to do once one more attempt was made, `made` attempts in all, and
/// came to `outcome`.
pub open spec fn next_action<R, E>(
    budget: nat,
    delay_secs: u64,
    made: nat,
    outcome: Attempt<R, E>,
) -> Action<R, E> {
    match outcome {
        Attempt::Found(receipt) => Action::Finish(Verdict::Done(receipt)),
        Attempt::Failed(e) => Action::Finish(Verdict::Failed(e)),
        Attempt::NotFound => if made >= budget {
            Action::Finish(Verdict::TimedOut)
        } else {
            Action::Fetch { after_secs: delay_secs }
        },
    }
}

/// The waiting from the point where `made` attempts were made and another
/// is due: how it ends, and after how many attempts in all. `answers` gives
/// what each attempt comes to, the first being attempt 0.
pub open spec fn run<R, E>(
    budget: nat,
    delay_secs: u64,
    made: nat,
    answers: spec_fn(nat) -> Attempt<R, E>,
) -> (Verdict<R, E>, nat)
    decreases budget - made,
{
    if made >= budget {
        (Verdict::TimedOut, made)
    } else {
        match next_action(budget, delay_secs, made + 1, answers(made)) {
            Action::Finish(verdict) => (verdict, made + 1),
            Action::Fetch { .. } => run(budget, delay_secs, made + 1, answers),
        }
    }
}

/// The whole waiting for one ticket: how it ends, and after how many
/// attempts.
pub open spec fn wait<R, E>(
    budget: nat,
    delay_secs: u64,
    answers: spec_fn(nat) -> Attempt<R, E>,
) -> (Verdict<R, E>, nat) {
    run(budget, delay_secs, 0, answers)
}

/// As long as the answers are "not found", the waiting goes on.
proof fn lemma_run_skips<R, E>(
    budget: nat,
    delay_secs: u64,
    made: nat,
    upto: nat,
    answers: spec_fn(nat) -> Attempt<R, E>,
)
    requires
        made <= upto < budget,
        forall|k: nat| made <= k < upto ==> (#[trigger] answers(k)) is NotFound,
    ensures
        run(budget, delay_secs, made, answers) == run(budget, delay_secs, upto, answers),
    decreases upto - made,
{
    if made < upto {
        assert(answers(made) is NotFound);
        lemma_run_skips(budget, delay_secs, made + 1, upto, answers);
    }
}

/// A receipt that is there at attempt `m`, after `m - 1` answers of "not
/// found", is had after exactly `m` attempts, provided the budget allows
/// `m` attempts.
pub proof fn lemma_wait_found<R, E>(
    budget: nat,
    delay_secs: u64,
    answers: spec_fn(nat) -> Attempt<R, E>,
    m: nat,
    receipt: R,
)
    requires
        1 <= m <= budget,
        forall|k: nat| k < m - 1 ==> (#[trigger] answers(k)) is NotFound,
        answers((m - 1) as nat) == Attempt::<R, E>::Found(receipt),
    ensures
        wait(budget, delay_secs, answers) == (Verdict::<R, E>::Done(receipt), m),
{
    lemma_run_skips(budget, delay_secs, 0, (m - 1) as nat, answers);
}

/// A receipt that never comes: the waiting ends as timed out after exactly
/// `budget` attempts, each answered with "not found".
pub proof fn lemma_wait_timeout<R, E>(
    budget: nat,
    delay_secs: u64,
    answers: spec_fn(nat) -> Attempt<R, E>,
)
    requires
        forall|k: nat| k < budget ==> (#[trigger] answers(k)) is NotFound,
    ensures
        wait(budget, delay_secs, answers) == (Verdict::<R, E>::TimedOut, budget),
{
    if budget > 0 {
        lemma_run_skips(budget, delay_secs, 0, (budget - 1) as nat, answers);
        assert(answers((budget - 1) as nat) is NotFound);
    }
}

/// A failure other than "not found" is not retried: it ends the waiting at
/// the attempt at which it comes.
pub proof fn lemma_wait_failed<R, E>(
    budget: nat,
    delay_secs: u64,
    answers: spec_fn(nat) -> Attempt<R, E>,
    m: nat,
    failure: E,
)
    requires
        1 <= m <= budget,
        forall|k: nat| k < m - 1 ==> (#[trigger] answers(k)) is NotFound,
        answers((m - 1) as nat) == Attempt::<R, E>::Failed(failure),
    ensures
        wait(budget, delay_secs, answers) == (Verdict::<R, E>::Failed(failure), m),
{
    lemma_run_skips(budget, delay_secs, 0, (m - 1) as nat, answers);
}

/// What the fetching of a receipt came to, for the poller: the answer that
/// the resource was not found is "not found", any other failure is a
/// failure.
pub fn attempt_of(reply: Result<Receipt, ClientError>) -> (a: Attempt<Receipt, ClientError>)
    ensures
        match reply {
            Ok(rx) => a == Attempt::<Receipt, ClientError>::Found(rx),
            Err(e) => if e.not_found() {
                a is NotFound
            } else {
                a == Attempt::<Receipt, ClientError>::Failed(e)
            },
        },
{
    match reply {
        Ok(rx) => Attempt::Found(rx),
        Err(e) => if e.is_not_found() {
            Attempt::NotFound
        } else {
            Attempt::Failed(e)
        },
    }
}

impl Poller {
    /// The number of attempts that may be made.
    pub closed spec fn budget(&self) -> nat {
        self.budget as nat
    }

    /// The seconds to pause between two attempts.
    pub closed spec fn delay_secs(&self) -> u64 {
        self.delay_secs
    }

    /// The number of attempts reported so far.
    pub closed spec fn made(&self) -> nat {
        self.made as nat
    }

    /// The waiting for one ticket, before any attempt.
    pub fn new(budget: u32, delay_secs: u64) -> (p: Poller)
        ensures
            p.budget() == budget,
            p.delay_secs() == delay_secs,
            p.made() == 0,
    {
        Poller { budget, delay_secs, made: 0 }
    }

    /// The number of attempts reported so far.
    pub fn attempts(&self) -> (n: u32)
        ensures
            n == self.made(),
    {
        self.made
    }

    /// What to do first: make an attempt at once, unless the budget allows
    /// none.
    pub fn start<R, E>(&self) -> (a: Action<R, E>)
        ensures
            a == first_action::<R, E>(self.budget()),
    {
        if self.budget == 0 {
            Action::Finish(Verdict::TimedOut)
        } else {
            Action::Fetch { after_secs: 0 }
        }
    }

    /// Takes what the attempt just made came to and says what to do next.
    /// The attempt is counted as long as attempts are left in the budget.
    pub fn step<R, E>(&mut self, outcome: Attempt<R, E>) -> (a: Action<R, E>)
        ensures
            final(self).budget() == old(self).budget(),
            final(self).delay_secs() == old(self).delay_secs(),
            final(self).made() == if old(self).made() < old(self).budget() {
                old(self).made() + 1
            } else {
                old(self).made()
            },
            a == next_action(
                old(self).budget(),
                old(self).delay_secs(),
                final(self).made(),
                outcome,
            ),
    {
        if self.made < self.budget {
            self.made = self.made + 1;
        }
        match outcome {
            Attempt::Found(receipt) => Action::Finish(Verdict::Done(receipt)),
            Attempt::Failed(e) => Action::Finish(Verdict::Failed(e)),
            Attempt::NotFound => if self.made >= self.budget {
                Action::Finish(Verdict::TimedOut)
            } else {
                Action::Fetch { after_secs: self.delay_secs }
            },
        }
    }

    /// The number of attempts that may be made.
    pub fn limit(&self) -> (n: u32)
        ensures
            n == self.budget(),
    {
        self.budget
    }

    /// The seconds to pause between two attempts.
    pub fn delay(&self) -> (secs: u64)
        ensures
            secs == self.delay_secs(),
    {
        self.delay_secs
    }

    /// Whether attempts are left in the budget.
    pub fn attempts_left(&self) -> (b: bool)
        ensures
            b == (self.made() < self.budget()),
    {
        self.made < self.budget
    }
}

} // verus!
