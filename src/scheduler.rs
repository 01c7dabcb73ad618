use crate::certificate::{
    first_named, get_lets_encrypt_certificate, records_wf, should_renew, stored_renewal_needed,
    CertificateRecord,
};
use vstd::prelude::*;

verus! {

/// The sweep runs on every tick whose count is a multiple of this.
pub const UPDATE_INTERVAL: u32 = 10;

/// Whether the tick `count` is one on which the sweep runs.
pub fn is_update_tick(count: u32) -> (r: bool)
    ensures
        r == (count % 10 == 0),
{
    count % UPDATE_INTERVAL == 0
}

/// A renewal job: a certificate name and the domains it must cover.
#[derive(Clone, Debug)]
pub struct RenewalTarget {
    pub name: String,
    pub domains: Vec<String>,
}

/// What became of one target in a sweep.
#[derive(Clone, Copy, Debug, PartialEq, Eq, Structural)]
pub enum TargetOutcome {
    UpToDate,
    Renewed,
    Failed,
}

/// What the driver of a sweep must do next.
#[derive(Clone, Copy, Debug, PartialEq, Eq, Structural)]
pub enum SweepStep {
    /// Issue the target at this index again, then report the outcome.
    Renew(usize),
    /// Every target has been handled.
    Finished,
}

/// The state of one sweep over the renewal targets, which are handled in
/// order, one at a time.
#[derive(Debug)]
pub struct Sweep {
    next: usize,
    pending: bool,
    outcomes: Vec<TargetOutcome>,
}

/// The mathematical state of a sweep.
pub struct SweepView {
    /// The index of the target being handled, or of the next one.
    pub next: nat,
    /// Whether the target at `next` awaits the outcome of its renewal.
    pub pending: bool,
    /// The outcome of each target before `next`.
    pub outcomes: Seq<TargetOutcome>,
}

impl SweepView {
    /// The state after the pending renewal ended, with success or not.
    pub open spec fn reported(self, ok: bool) -> SweepView {
        SweepView {
            next: self.next + 1,
            pending: false,
            outcomes: self.outcomes.push(
                if ok {
                    TargetOutcome::Renewed
                } else {
                    TargetOutcome::Failed
                },
            ),
        }
    }
}

impl View for Sweep {
    type V = SweepView;

    closed spec fn view(&self) -> SweepView {
        SweepView { next: self.next as nat, pending: self.pending, outcomes: self.outcomes@ }
    }
}

impl Sweep {
    pub open spec fn wf(&self) -> bool {
        self@.outcomes.len() == self@.next
    }

    /// Starts the sweep of tick `count`; there is none on other ticks than
    /// those whose count is a multiple of the interval.
    pub fn start(count: u32) -> (r: Option<Sweep>)
        ensures
            r is None <==> count % 10 != 0,
            r matches Some(s) ==> s.wf() && s@.next == 0 && !s@.pending,
    {
        if !is_update_tick(count) {
            return None;
        }
        Some(Sweep { next: 0, pending: false, outcomes: Vec::new() })
    }

    /// The outcome of each target handled so far.
    pub fn outcomes(&self) -> (r: &Vec<TargetOutcome>)
        ensures
            r@ == self@.outcomes,
    {
        &self.outcomes
    }

    /// Moves past the targets whose stored certificate needs nothing, up
    /// to the next one that must be issued again.
    pub fn next_step(&mut self, targets: &Vec<RenewalTarget>, records: &Vec<CertificateRecord>) -> (r:
        SweepStep)
        requires
            old(self).wf(),
            records_wf(records@),
            !old(self)@.pending,
            old(self)@.next <= targets.len(),
        ensures
            final(self).wf(),
            old(self)@.next <= final(self)@.next <= targets.len(),
            final(self)@.outcomes.subrange(0, old(self)@.next as int) == old(self)@.outcomes,
            forall|k: int|
                old(self)@.next <= k < final(self)@.next ==> final(self)@.outcomes[k]
                    == TargetOutcome::UpToDate && !stored_renewal_needed(
                    records@,
                    targets@[k].name@,
                    targets@[k].domains@,
                ),
            r matches SweepStep::Renew(i) ==> i == final(self)@.next && i < targets.len()
                && final(self)@.pending && stored_renewal_needed(
                records@,
                targets@[i as int].name@,
                targets@[i as int].domains@,
            ),
            r is Finished ==> final(self)@.next == targets.len() && !final(self)@.pending
                && final(self)@.outcomes.len() == targets.len(),
            advances(old(self)@, final(self)@),
    {
        let ghost start = self@;
        while self.next < targets.len()
            invariant
                self.wf(),
                !self.pending,
                start == old(self)@,
                records_wf(records@),
                start.next <= self.next <= targets.len(),
                self@.outcomes.subrange(0, start.next as int) == start.outcomes,
                forall|k: int|
                    start.next <= k < self.next ==> self@.outcomes[k] == TargetOutcome::UpToDate
                        && !stored_renewal_needed(
                        records@,
                        targets@[k].name@,
                        targets@[k].domains@,
                    ),
            decreases targets.len() - self.next,
        {
            let target = &targets[self.next];
            let current = get_lets_encrypt_certificate(records, target.name.as_str());
            let renew = should_renew(&target.domains, &current);
            proof {
                let name = target.name@;
                if has_named_witness(records@, name) {
                    let i = choose|i: int| first_named(records@, name, i);
                    assert forall|j: int| first_named(records@, name, j) implies j == i by {
                        if j < i {
                            assert(records@[j].name@ == name);
                        } else if i < j {
                            assert(records@[i].name@ == name);
                        }
                    }
                }
            }
            if renew {
                let ghost mid = self@;
                self.pending = true;
                assert(self@.next == mid.next && self@.outcomes == mid.outcomes);
                return SweepStep::Renew(self.next);
            }
            let ghost before = self@.outcomes;
            self.outcomes.push(TargetOutcome::UpToDate);
            self.next = self.next + 1;
            assert(self@.outcomes.subrange(0, start.next as int) =~= before.subrange(
                0,
                start.next as int,
            ));
        }
        SweepStep::Finished
    }

    /// Records the outcome of the pending renewal and moves to the next
    /// target, whatever the outcome was.
    pub fn report(&mut self, ok: bool)
        requires
            old(self).wf(),
            old(self)@.pending,
            old(self)@.next < usize::MAX,
        ensures
            final(self).wf(),
            final(self)@ == old(self)@.reported(ok),
            advances(old(self)@, final(self)@),
    {
        let ghost before = self@;
        if ok {
            self.outcomes.push(TargetOutcome::Renewed);
        } else {
            self.outcomes.push(TargetOutcome::Failed);
        }
        self.next = self.next + 1;
        self.pending = false;
        assert(self@.outcomes.subrange(0, before.outcomes.len() as int) =~= before.outcomes);
    }
}

/// A step of a sweep, as `next_step` and `report` take it: the position
/// never goes back and the outcomes recorded before it are kept.
pub open spec fn advances(a: SweepView, b: SweepView) -> bool {
    &&& a.outcomes.len() == a.next
    &&& b.outcomes.len() == b.next
    &&& a.next <= b.next
    &&& b.outcomes.subrange(0, a.next as int) == a.outcomes
}

/// A sweep handles each target once: over any run of steps the position
/// only grows and each recorded outcome is kept, so no target behind the
/// position is asked for again, and a finished sweep holds exactly one
/// outcome per target.
pub proof fn lemma_sweep_visits_each_target_once(a: SweepView, b: SweepView, c: SweepView)
    requires
        advances(a, b),
        advances(b, c),
    ensures
        advances(a, c),
        forall|k: int| 0 <= k < a.next ==> c.outcomes[k] == a.outcomes[k],
{
    assert(c.outcomes.subrange(0, a.next as int) =~= b.outcomes.subrange(0, a.next as int));
    assert forall|k: int| 0 <= k < a.next implies c.outcomes[k] == a.outcomes[k] by {
        assert(c.outcomes.subrange(0, a.next as int)[k] == c.outcomes[k]);
    }
}

/// Some record is the first one named `name`.
pub open spec fn has_named_witness(records: Seq<CertificateRecord>, name: Seq<char>) -> bool {
    exists|i: int| first_named(records, name, i)
}

/// A failed renewal stops nothing: the sweep goes on to the next target
/// exactly as it does after a successful one.
pub proof fn lemma_failure_continues_sweep(s: SweepView)
    requires
        s.pending,
    ensures
        s.reported(false).next == s.reported(true).next,
        s.reported(false).next == s.next + 1,
        !s.reported(false).pending,
        s.reported(false).outcomes.last() == TargetOutcome::Failed,
        s.reported(false).outcomes.subrange(0, s.outcomes.len() as int) == s.outcomes,
{
    assert(s.reported(false).outcomes.subrange(0, s.outcomes.len() as int) =~= s.outcomes);
}

} // verus!
