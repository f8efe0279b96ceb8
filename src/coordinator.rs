use vstd::prelude::*;

verus! {

/// What a worker does after reading the node-local lock value.
#[derive(PartialEq, Eq, Structural, Clone, Copy, Debug)]
pub enum ClaimStep {
    /// The last claim is younger than the grace period: nothing is attempted.
    RecentlySent,
    /// Replace `expected`, the value read, with `new`, the current height.
    Attempt { expected: Option<u64>, new: u64 },
}

/// How a claim attempt ended.
#[derive(PartialEq, Eq, Structural, Clone, Copy, Debug)]
pub enum ClaimOutcome {
    Claimed,
    RecentlySent,
    LostRace,
}

/// Which kind of transaction a worker round sends.
#[derive(PartialEq, Eq, Structural, Clone, Copy, Debug)]
pub enum TransactionType {
    Signed,
    UnsignedForAny,
    UnsignedForAll,
    Raw,
    Nothing,
}

/// Whether a claim at `now` falls inside the grace period of a claim at `last`.
pub open spec fn within_grace(last: u64, now: u64, grace: u64) -> bool {
    (now as int) < last as int + grace as int
}

/// The step a worker takes at height `now` after reading `last` from the lock.
pub open spec fn plan_claim_spec(last: Option<u64>, now: u64, grace: u64) -> ClaimStep {
    match last {
        Some(l) if within_grace(l, now, grace) => ClaimStep::RecentlySent,
        _ => ClaimStep::Attempt { expected: last, new: now },
    }
}

/// The stored value and the outcome after `step` runs against the stored value `stored`.
pub open spec fn run_step(stored: Option<u64>, step: ClaimStep) -> (Option<u64>, ClaimOutcome) {
    match step {
        ClaimStep::RecentlySent => (stored, ClaimOutcome::RecentlySent),
        ClaimStep::Attempt { expected, new } => if stored == expected {
            (Some(new), ClaimOutcome::Claimed)
        } else {
            (stored, ClaimOutcome::LostRace)
        },
    }
}

/// Decides, from the value read from the lock, whether to try to claim at height `now`.
pub fn plan_claim(last: Option<u64>, now: u64, grace: u64) -> (r: ClaimStep)
    ensures
        r == plan_claim_spec(last, now, grace),
{
    match last {
        Some(l) => {
            if now < l || now - l < grace {
                ClaimStep::RecentlySent
            } else {
                ClaimStep::Attempt { expected: last, new: now }
            }
        },
        None => ClaimStep::Attempt { expected: None, new: now },
    }
}

/// A node-local persistent cell holding the height of the last claim, written
/// only by compare-and-set.
pub struct LocalLock {
    value: Option<u64>,
}

impl LocalLock {
    pub closed spec fn view(&self) -> Option<u64> {
        self.value
    }

    /// A lock that was never claimed.
    pub fn new() -> (r: LocalLock)
        ensures
            r@ is None,
    {
        LocalLock { value: None }
    }

    /// A lock that last recorded `value`.
    pub fn with_value(value: Option<u64>) -> (r: LocalLock)
        ensures
            r@ == value,
    {
        LocalLock { value }
    }

    pub fn get(&self) -> (r: Option<u64>)
        ensures
            r == self@,
    {
        self.value
    }

    /// Stores `new` if the cell still holds `expected`; tells whether it did.
    pub fn compare_and_set(&mut self, expected: Option<u64>, new: u64) -> (r: bool)
        ensures
            r == (old(self)@ == expected),
            final(self)@ == if r { Some(new) } else { old(self)@ },
    {
        if self.value == expected {
            self.value = Some(new);
            true
        } else {
            false
        }
    }
}

/// Carries out a planned step against the lock: at most one write.
pub fn finish_claim(lock: &mut LocalLock, step: ClaimStep) -> (r: ClaimOutcome)
    ensures
        (final(lock)@, r) == run_step(old(lock)@, step),
{
    match step {
        ClaimStep::RecentlySent => ClaimOutcome::RecentlySent,
        ClaimStep::Attempt { expected, new } => {
            if lock.compare_and_set(expected, new) {
                ClaimOutcome::Claimed
            } else {
                ClaimOutcome::LostRace
            }
        },
    }
}

/// Reads the lock and tries to claim it at height `now` in one go.
pub fn try_claim(lock: &mut LocalLock, now: u64, grace: u64) -> (r: ClaimOutcome)
    ensures
        (final(lock)@, r) == run_step(old(lock)@, plan_claim_spec(old(lock)@, now, grace)),
        r == ClaimOutcome::RecentlySent <==> (old(lock)@ matches Some(l) && within_grace(l, now, grace)),
        r == ClaimOutcome::Claimed <==> !(old(lock)@ matches Some(l) && within_grace(l, now, grace)),
        r == ClaimOutcome::Claimed ==> final(lock)@ == Some(now),
        r != ClaimOutcome::Claimed ==> final(lock)@ == old(lock)@,
{
    let last = lock.get();
    let step = plan_claim(last, now, grace);
    finish_claim(lock, step)
}

/// The transaction to send after a claim attempt: a raw unsigned one when the
/// lock was claimed, none otherwise.
pub fn transaction_type_for(outcome: ClaimOutcome) -> (r: TransactionType)
    ensures
        r == (if outcome == ClaimOutcome::Claimed { TransactionType::Raw } else { TransactionType::Nothing }),
{
    match outcome {
        ClaimOutcome::Claimed => TransactionType::Raw,
        _ => TransactionType::Nothing,
    }
}

/// The outcomes of `steps` carried out one after another, in that order,
/// against a lock that holds `stored`.
pub open spec fn run_all(stored: Option<u64>, steps: Seq<ClaimStep>) -> Seq<ClaimOutcome>
    decreases steps.len(),
{
    if steps.len() == 0 {
        Seq::empty()
    } else {
        let (next, o) = run_step(stored, steps[0]);
        seq![o] + run_all(next, steps.drop_first())
    }
}

/// The steps of `n` workers that all read an unclaimed lock at height `now`.
pub open spec fn racers(n: nat, now: u64, grace: u64) -> Seq<ClaimStep> {
    Seq::new(n, |i: int| plan_claim_spec(None, now, grace))
}

proof fn lemma_all_lose(now: u64, grace: u64, n: nat, stored: Option<u64>)
    requires
        stored is Some,
    ensures
        run_all(stored, racers(n, now, grace)).len() == n,
        forall|i: int|
            0 <= i < n ==> #[trigger] run_all(stored, racers(n, now, grace))[i]
                == ClaimOutcome::LostRace,
    decreases n,
{
    let steps = racers(n, now, grace);
    if n > 0 {
        let rest = racers((n - 1) as nat, now, grace);
        assert(steps.drop_first() =~= rest);
        lemma_all_lose(now, grace, (n - 1) as nat, stored);
        let out = run_all(stored, steps);
        assert(out =~= seq![ClaimOutcome::LostRace] + run_all(stored, rest));
        assert forall|i: int| 0 <= i < n implies #[trigger] out[i] == ClaimOutcome::LostRace by {
            if i > 0 {
                assert(out[i] == run_all(stored, rest)[i - 1]);
            }
        }
    }
}

/// When `n` workers of one node read a lock that was never claimed, all at
/// the same height, and then write it in any order, exactly one of them
/// claims it, the first to write, and every other one loses the race.
pub proof fn lemma_one_claim_among_racers(now: u64, grace: u64, n: nat)
    requires
        n >= 1,
    ensures
        run_all(None, racers(n, now, grace)).len() == n,
        forall|i: int|
            0 <= i < n ==> (#[trigger] run_all(None, racers(n, now, grace))[i]
                == ClaimOutcome::Claimed <==> i == 0),
        forall|i: int|
            1 <= i < n ==> #[trigger] run_all(None, racers(n, now, grace))[i]
                == ClaimOutcome::LostRace,
{
    let steps = racers(n, now, grace);
    let rest = racers((n - 1) as nat, now, grace);
    assert(steps.drop_first() =~= rest);
    lemma_all_lose(now, grace, (n - 1) as nat, Some(now));
    let out = run_all(None, steps);
    assert(out =~= seq![ClaimOutcome::Claimed] + run_all(Some(now), rest));
    assert forall|i: int| 1 <= i < n implies #[trigger] out[i] == ClaimOutcome::LostRace by {
        assert(out[i] == run_all(Some(now), rest)[i - 1]);
    }
}

/// After a claim at height `h0`, an attempt at height `h` is turned away as
/// recently sent exactly when `h < h0 + grace`, and otherwise claims the lock.
pub proof fn lemma_grace_period(h0: u64, h: u64, grace: u64)
    ensures
        run_step(Some(h0), plan_claim_spec(Some(h0), h, grace)).1 == ClaimOutcome::RecentlySent
            <==> (h as int) < h0 as int + grace as int,
        run_step(Some(h0), plan_claim_spec(Some(h0), h, grace)).1 == ClaimOutcome::Claimed
            <==> (h as int) >= h0 as int + grace as int,
{
}

} // verus!
