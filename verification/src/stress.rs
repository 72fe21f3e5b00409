//! The decisions of a stress run: random payments among the built-in
//! accounts, from one thread or several.

use crate::common::random_u64;
use vstd::prelude::*;

verus! {

/// Submissions between two pauses of a light run.
pub const LIGHT_BURST: u32 = 30;

/// Seconds that a light run pauses for.
pub const LIGHT_PAUSE_SECS: u64 = 5;

/// Largest number of units of a payment, plus one.
pub const UNITS_BOUND: u64 = 20;

/// A payment between two of the built-in accounts, named by their places
/// in the list.
#[derive(Clone, Copy, Debug, PartialEq, Eq, Structural)]
pub struct Payment {
    pub from: usize,
    pub to: usize,
    pub units: u64,
}

/// The payment that three drawn numbers stand for among `accounts`
/// accounts.
pub fn payment_of(a: u64, b: u64, c: u64, accounts: usize) -> (p: Payment)
    requires
        accounts > 0,
    ensures
        p.from == a % (accounts as u64),
        p.to == b % (accounts as u64),
        p.units == c % 20,
{
    let n: u64 = accounts as u64;
    Payment { from: (a % n) as usize, to: (b % n) as usize, units: c % UNITS_BOUND }
}

/// A payment drawn at random among `accounts` accounts. There is none
/// where there is no account.
pub fn random_payment(accounts: usize) -> (p: Option<Payment>)
    ensures
        accounts == 0 ==> p is None,
        accounts > 0 ==> (p matches Some(x) && x.from < accounts && x.to < accounts && x.units
            < 20),
{
    if accounts == 0 {
        None
    } else {
        Some(payment_of(random_u64(), random_u64(), random_u64(), accounts))
    }
}

/// How a stress run is made: whether it is light, and from how many
/// threads. No thread asked for means a light run from one thread.
pub fn stress_plan(threads: u8) -> (r: (bool, u8))
    ensures
        r.0 == (threads == 0),
        r.1 == if threads == 0 {
            1u8
        } else {
            threads
        },
{
    (threads == 0, if threads == 0 { 1 } else { threads })
}

/// The number of the preparations that were made.
pub open spec fn made(registered: bool, initialised: bool, minted: bool) -> int {
    (if registered { 1int } else { 0 }) + (if initialised { 1int } else { 0 }) + (if minted {
        1int
    } else {
        0
    })
}

/// The seconds to let the chain settle before the run starts: seven for
/// the start and seven more for each of the three preparations that was
/// made.
pub fn settle_secs(registered: bool, initialised: bool, minted: bool) -> (secs: u64)
    ensures
        secs == 7 * (1 + made(registered, initialised, minted)),
{
    let mut waiting_time: u64 = 1;
    if registered {
        waiting_time += 1;
    }
    if initialised {
        waiting_time += 1;
    }
    if minted {
        waiting_time += 1;
    }
    waiting_time * 7
}

/// The pace of one worker of a stress run.
#[derive(Clone, Copy, Debug, PartialEq, Eq)]
pub struct Pacer {
    counter: u32,
}

impl Pacer {
    #[verifier::type_invariant]
    spec fn inv(self) -> bool {
        1 <= self.counter <= LIGHT_BURST
    }

    /// The submissions that are left before the next pause of a light run.
    pub closed spec fn left(&self) -> nat {
        self.counter as nat
    }

    /// The pace at the start of a run.
    pub fn new() -> (p: Pacer)
        ensures
            p.left() == LIGHT_BURST,
    {
        Pacer { counter: LIGHT_BURST }
    }

    /// The submissions that are left before the next pause of a light run.
    pub fn submissions_left(&self) -> (n: u32)
        ensures
            n == self.left(),
            1 <= n <= LIGHT_BURST,
    {
        proof {
            use_type_invariant(self);
        }
        self.counter
    }

    /// Counts one submission and gives the seconds to pause for before the
    /// next. A run that is not light never pauses and counts nothing; a
    /// light run pauses after every thirtieth submission.
    pub fn submitted(&mut self, light: bool) -> (pause: Option<u64>)
        ensures
            !light ==> pause is None && final(self).left() == old(self).left(),
            light && old(self).left() > 1 ==> pause is None && final(self).left() + 1 == old(
                self,
            ).left(),
            light && old(self).left() == 1 ==> pause == Some(LIGHT_PAUSE_SECS)
                && final(self).left() == LIGHT_BURST,
    {
        proof {
            use_type_invariant(&*self);
        }
        if light {
            if self.counter == 1 {
                self.counter = LIGHT_BURST;
                return Some(LIGHT_PAUSE_SECS);
            }
            self.counter = self.counter - 1;
        }
        None
    }
}

} // verus!
