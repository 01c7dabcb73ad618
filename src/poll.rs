use crate::error::{Category, CertError};
use crate::order::{OrderStatus, PendingChallenge};
use vstd::prelude::*;

verus! {

/// The first delay of the order-status backoff, in milliseconds.
pub const INITIAL_DELAY_MS: u64 = 250;

/// The number of attempts at which polling gives up.
pub const MAX_TRIES: u8 = 10;

/// The delay held after `k` doublings: 250 ms, then twice the one before.
pub open spec fn backoff_delay(k: nat) -> nat
    decreases k,
{
    if k == 0 {
        250
    } else {
        2 * backoff_delay((k - 1) as nat)
    }
}

/// The waits that `OrderPoll::backoff` hands out are `backoff_delay(0)`,
/// `backoff_delay(1)`, ... in turn: they start at 250 ms and each one is
/// twice the one before.
pub proof fn lemma_backoff_doubles(k: nat)
    ensures
        backoff_delay(0) == 250,
        backoff_delay(k + 1) == 2 * backoff_delay(k),
        backoff_delay(k + 1) > backoff_delay(k),
    decreases k,
{
    if k > 0 {
        lemma_backoff_doubles((k - 1) as nat);
    }
}

/// Polling an order that never leaves `Pending` gives up: every wait that
/// `OrderPoll::backoff` hands out uses up one of `waits_left`, which a fresh
/// poll starts at eight, and `backoff` fails once none is left. So such a
/// poll refreshes at most nine times and reads the status at most ten times.
pub proof fn lemma_pending_poll_bounded(p: OrderPoll)
    requires
        p.wf(),
    ensures
        p.tries_of() + p.waits_left() == 9,
        p.waits_left() <= 8,
        p.tries_of() + p.waits_left() + 1 <= 10,
{
}

/// What to do with the status read on a poll.
#[derive(Clone, Debug)]
pub enum PollDecision {
    /// The order is ready or valid: go on to finalize it.
    Finalize,
    /// The order is not settled: refresh it, then back off.
    Refresh,
    /// The order failed.
    Failed(CertError),
}

/// The order-status poll: the attempts made so far and the current delay.
#[derive(Clone, Copy, Debug)]
pub struct OrderPoll {
    tries: u8,
    delay_ms: u64,
}

impl OrderPoll {
    /// The number of attempts made so far.
    pub closed spec fn tries_of(self) -> nat {
        self.tries as nat
    }

    /// The current delay in milliseconds.
    pub closed spec fn delay_of(self) -> nat {
        self.delay_ms as nat
    }

    /// How many more waits `backoff` hands out before it fails.
    pub open spec fn waits_left(self) -> nat {
        (9 - self.tries_of()) as nat
    }

    pub open spec fn wf(self) -> bool {
        &&& 1 <= self.tries_of() < 10
        &&& self.delay_of() == backoff_delay((self.tries_of() - 1) as nat)
    }

    /// A poll before its first attempt: one try, a delay of 250 ms.
    pub fn new() -> (r: OrderPoll)
        ensures
            r.wf(),
            r.tries_of() == 1,
            r.delay_of() == 250,
            r.waits_left() == 8,
    {
        OrderPoll { tries: 1, delay_ms: INITIAL_DELAY_MS }
    }

    /// The number of attempts made so far.
    pub fn tries(&self) -> (r: u8)
        ensures
            r as nat == self.tries_of(),
    {
        self.tries
    }

    /// The current delay in milliseconds.
    pub fn delay_ms(&self) -> (r: u64)
        ensures
            r as nat == self.delay_of(),
    {
        self.delay_ms
    }

    /// Decides on a status read: ready and valid orders are finalized, an
    /// invalid one fails the attempt, the others are polled again.
    pub fn on_status(&self, status: OrderStatus) -> (r: PollDecision)
        ensures
            r is Finalize <==> (status == OrderStatus::Ready || status == OrderStatus::Valid),
            r is Refresh <==> (status == OrderStatus::Pending || status == OrderStatus::Processing),
            r is Failed <==> status == OrderStatus::Invalid,
            r is Failed ==> r matches PollDecision::Failed(
                CertError::Fail { category: Category::OrderInvalid, .. },
            ),
    {
        match status {
            OrderStatus::Ready | OrderStatus::Valid => PollDecision::Finalize,
            OrderStatus::Invalid => PollDecision::Failed(
                CertError::Fail {
                    category: Category::OrderInvalid,
                    message: String::from_str("order is invalid"),
                },
            ),
            OrderStatus::Pending | OrderStatus::Processing => PollDecision::Refresh,
        }
    }

    /// After a refresh: counts the attempt and gives the delay to wait
    /// before the next read, doubling the one after it; fails once ten
    /// attempts are reached.
    pub fn backoff(&mut self) -> (r: Result<u64, CertError>)
        requires
            old(self).wf(),
        ensures
            r is Ok <==> old(self).tries_of() + 1 < 10,
            r is Ok <==> old(self).waits_left() > 0,
            r is Ok ==> final(self).wf() && final(self).tries_of() == old(self).tries_of() + 1
                && final(self).waits_left() + 1 == old(self).waits_left(),
            r matches Ok(d) ==> d as nat == old(self).delay_of() && final(self).delay_of() == 2
                * old(self).delay_of(),
            r is Err ==> r matches Err(CertError::Fail { category: Category::RetryTooMany, .. }),
    {
        proof {
            lemma_delay_bound(self.tries as nat);
        }
        let wait = self.delay_ms;
        self.delay_ms = self.delay_ms * 2;
        self.tries = self.tries + 1;
        if self.tries < MAX_TRIES {
            Ok(wait)
        } else {
            Err(
                CertError::Fail {
                    category: Category::RetryTooMany,
                    message: String::from_str("order is not ready"),
                },
            )
        }
    }
}

proof fn lemma_delay_bound(tries: nat)
    requires
        1 <= tries < 10,
    ensures
        backoff_delay((tries - 1) as nat) <= 250 * 256,
    decreases 10 - tries,
{
    if tries < 9 {
        lemma_delay_bound(tries + 1);
        assert(backoff_delay(tries as nat) == 2 * backoff_delay((tries - 1) as nat));
    } else {
        reveal_with_fuel(backoff_delay, 9);
    }
}

/// What the session must do next with its HTTP-01 challenges.
#[derive(Clone, Copy, Debug, PartialEq, Eq, Structural)]
pub enum ChallengeAction {
    /// Store the key authorization of the challenge at this index.
    SaveToken(usize),
    /// Tell the issuer that the challenge at this index can be checked.
    SignalReady(usize),
    /// All tokens are stored and all challenges signalled: poll the order.
    AwaitOrder,
}

/// The challenge round of an order session. Every token is stored before
/// any challenge is signalled ready, so that the issuer never probes a
/// token that cannot yet be served.
#[derive(Clone, Debug)]
pub struct ChallengeRound {
    challenges: Vec<PendingChallenge>,
    saved: usize,
    signaled: usize,
}

impl ChallengeRound {
    pub closed spec fn challenges_of(self) -> Seq<PendingChallenge> {
        self.challenges@
    }

    /// How many tokens are stored.
    pub closed spec fn saved_of(self) -> nat {
        self.saved as nat
    }

    /// How many challenges are signalled ready.
    pub closed spec fn signaled_of(self) -> nat {
        self.signaled as nat
    }

    pub open spec fn wf(self) -> bool {
        &&& self.saved_of() <= self.challenges_of().len()
        &&& self.signaled_of() <= self.challenges_of().len()
        &&& self.signaled_of() > 0 ==> self.saved_of() == self.challenges_of().len()
    }

    /// A round in which nothing is done yet.
    pub fn new(challenges: Vec<PendingChallenge>) -> (r: ChallengeRound)
        ensures
            r.wf(),
            r.challenges_of() == challenges@,
            r.saved_of() == 0,
            r.signaled_of() == 0,
    {
        ChallengeRound { challenges, saved: 0, signaled: 0 }
    }

    /// The challenges of the round.
    pub fn challenges(&self) -> (r: &Vec<PendingChallenge>)
        ensures
            r@ == self.challenges_of(),
    {
        &self.challenges
    }

    /// The next thing to do: store the tokens in order, then signal the
    /// challenges in order, then poll.
    pub fn next_action(&self) -> (r: ChallengeAction)
        requires
            self.wf(),
        ensures
            r matches ChallengeAction::SaveToken(i) <==> self.saved_of() < self.challenges_of().len(),
            r matches ChallengeAction::SaveToken(i) ==> i == self.saved_of(),
            r matches ChallengeAction::SignalReady(i) ==> i == self.signaled_of() && self.saved_of()
                == self.challenges_of().len() && i < self.challenges_of().len(),
            r is AwaitOrder <==> self.saved_of() == self.challenges_of().len() && self.signaled_of()
                == self.challenges_of().len(),
    {
        if self.saved < self.challenges.len() {
            ChallengeAction::SaveToken(self.saved)
        } else if self.signaled < self.challenges.len() {
            ChallengeAction::SignalReady(self.signaled)
        } else {
            ChallengeAction::AwaitOrder
        }
    }

    /// Records that the action `next_action` gave was carried out.
    pub fn complete(&mut self)
        requires
            old(self).wf(),
            !(old(self).saved_of() == old(self).challenges_of().len() && old(self).signaled_of()
                == old(self).challenges_of().len()),
        ensures
            final(self).wf(),
            final(self).challenges_of() == old(self).challenges_of(),
            old(self).saved_of() < old(self).challenges_of().len() ==> final(self).saved_of()
                == old(self).saved_of() + 1 && final(self).signaled_of() == old(self).signaled_of(),
            old(self).saved_of() == old(self).challenges_of().len() ==> final(self).saved_of()
                == old(self).saved_of() && final(self).signaled_of() == old(self).signaled_of() + 1,
    {
        if self.saved < self.challenges.len() {
            self.saved = self.saved + 1;
        } else {
            self.signaled = self.signaled + 1;
        }
    }
}

} // verus!
