//! Restart policy: the restart budget, the backoff schedule and the
//! crash-loop window.

use vstd::arithmetic::power2::{lemma_pow2_pos, lemma_pow2_strictly_increases, lemma_pow2_unfold, pow2};
use vstd::prelude::*;

verus! {

/// How the supervisor reacts to unexpected exits.
///
/// The backoff schedule is exponential with a cap. Launch attempts are
/// numbered from 0, the first launch. Attempt 0 is immediate, attempt 1 (the
/// first restart) waits `backoff_base_ms`, and each further one twice as long
/// as the one before, never longer than `backoff_cap_ms`.
///
/// A crash loop is declared when `crash_loop_threshold` crashes lie within
/// `crash_loop_window_ms` of each other.
#[derive(Clone, Copy, Debug, PartialEq, Eq)]
pub struct RestartPolicy {
    /// How many restarts may be made over the supervisor's lifetime.
    pub max_restarts: u32,
    /// The delay before the first restart, in milliseconds.
    pub backoff_base_ms: u64,
    /// The longest delay before any restart, in milliseconds.
    pub backoff_cap_ms: u64,
    /// How many crashes within the window make a crash loop.
    pub crash_loop_threshold: u32,
    /// The length of the crash-loop window, in milliseconds.
    pub crash_loop_window_ms: u64,
}

/// The smaller of two numbers.
pub open spec fn min_nat(a: nat, b: nat) -> nat {
    if a <= b {
        a
    } else {
        b
    }
}

impl RestartPolicy {
    /// A policy is valid when its schedule really backs off and its crash-loop
    /// threshold counts at least one crash.
    pub open spec fn valid(self) -> bool {
        &&& self.backoff_base_ms >= 1
        &&& self.crash_loop_threshold >= 1
    }

    /// The delay, in milliseconds, before launch attempt number `attempt`.
    pub open spec fn delay(self, attempt: nat) -> nat {
        if attempt == 0 {
            0
        } else {
            min_nat(
                self.backoff_base_ms as nat * pow2((attempt - 1) as nat),
                self.backoff_cap_ms as nat,
            )
        }
    }

    /// Whether a crash at time `t` still counts at time `now`.
    pub open spec fn in_window(self, t: u64, now: u64) -> bool {
        now - t <= self.crash_loop_window_ms
    }

    /// The test that `in_window` makes at time `now`, as a predicate on times.
    pub open spec fn window_pred(self, now: u64) -> spec_fn(u64) -> bool {
        |t: u64| self.in_window(t, now)
    }

    /// The crash times among `times` that still count at time `now`, in their
    /// order.
    pub open spec fn recent(self, times: Seq<u64>, now: u64) -> Seq<u64> {
        times.filter(self.window_pred(now))
    }

    /// The crash history after one more crash at time `now`.
    pub open spec fn with_crash(self, times: Seq<u64>, now: u64) -> Seq<u64> {
        self.recent(times, now).push(now)
    }

    /// Whether a crash at time `now`, after the crashes at `times`, completes
    /// a crash loop.
    pub open spec fn breaches(self, times: Seq<u64>, now: u64) -> bool {
        self.with_crash(times, now).len() >= self.crash_loop_threshold
    }

    /// Whether the restart budget still allows a restart after
    /// `restarts_made` of them.
    pub open spec fn allows_restart(self, restarts_made: nat) -> bool {
        restarts_made < self.max_restarts
    }

    /// Builds a policy. Returns `None` exactly when the policy would not be
    /// valid: a zero backoff base or a zero crash-loop threshold.
    pub fn new(
        max_restarts: u32,
        backoff_base_ms: u64,
        backoff_cap_ms: u64,
        crash_loop_threshold: u32,
        crash_loop_window_ms: u64,
    ) -> (policy: Option<RestartPolicy>)
        ensures
            policy is Some <==> backoff_base_ms >= 1 && crash_loop_threshold >= 1,
            policy matches Some(p) ==> p.valid() && p == (RestartPolicy {
                max_restarts,
                backoff_base_ms,
                backoff_cap_ms,
                crash_loop_threshold,
                crash_loop_window_ms,
            }),
    {
        if backoff_base_ms == 0 || crash_loop_threshold == 0 {
            None
        } else {
            Some(
                RestartPolicy {
                    max_restarts,
                    backoff_base_ms,
                    backoff_cap_ms,
                    crash_loop_threshold,
                    crash_loop_window_ms,
                },
            )
        }
    }

    /// Tells whether the policy is valid.
    pub fn is_valid(&self) -> (ok: bool)
        ensures
            ok == self.valid(),
    {
        self.backoff_base_ms >= 1 && self.crash_loop_threshold >= 1
    }

    /// The delay before launch attempt number `attempt`.
    pub fn delay_ms(&self, attempt: u32) -> (delay: u64)
        ensures
            delay == self.delay(attempt as nat),
    {
        if attempt == 0 || self.backoff_base_ms == 0 {
            proof {
                assert(0 * pow2((attempt - 1) as nat) == 0) by (nonlinear_arith);
            }
            return 0;
        }
        let base: u64 = self.backoff_base_ms;
        let cap: u64 = self.backoff_cap_ms;
        let mut delay: u64 = if base <= cap {
            base
        } else {
            cap
        };
        let mut doublings: u32 = 0;
        proof {
            vstd::arithmetic::power2::lemma2_to64();
            assert(base as nat * 1 == base as nat);
        }
        while doublings < attempt - 1 && delay < cap
            invariant
                base == self.backoff_base_ms,
                cap == self.backoff_cap_ms,
                base >= 1,
                attempt >= 1,
                doublings <= attempt - 1,
                delay == min_nat(base as nat * pow2(doublings as nat), cap as nat),
            decreases attempt - 1 - doublings,
        {
            proof {
                lemma_pow2_unfold((doublings + 1) as nat);
                assert(base as nat * (2 * pow2(doublings as nat)) == 2 * (base as nat * pow2(
                    doublings as nat,
                ))) by (nonlinear_arith);
            }
            delay = if delay > cap - delay {
                cap
            } else {
                delay + delay
            };
            doublings = doublings + 1;
        }
        proof {
            if doublings < attempt - 1 {
                lemma_delay_capped_stays_capped(
                    *self,
                    doublings as nat,
                    (attempt - 1) as nat,
                );
            }
        }
        delay
    }

    /// Tells whether a crash at time `t` still counts at time `now`.
    pub fn counts_at(&self, t: u64, now: u64) -> (counts: bool)
        ensures
            counts == self.in_window(t, now),
    {
        t >= now || now - t <= self.crash_loop_window_ms
    }

    /// Adds a crash at time `now` to the crash history: the times that no
    /// longer count are dropped, the others keep their order, and `now` comes
    /// last. Returns whether the crash completes a crash loop.
    pub fn record_crash(&self, times: &mut Vec<u64>, now: u64) -> (breach: bool)
        ensures
            final(times)@ == self.with_crash(old(times)@, now),
            breach == self.breaches(old(times)@, now),
    {
        let mut kept: Vec<u64> = Vec::new();
        let mut i: usize = 0;
        let ghost pred = self.window_pred(now);
        proof {
            reveal(Seq::filter);
            assert(times@.take(0) =~= Seq::<u64>::empty());
        }
        while i < times.len()
            invariant
                i <= times.len(),
                times@ == old(times)@,
                pred == self.window_pred(now),
                kept@ == times@.take(i as int).filter(pred),
            decreases times.len() - i,
        {
            let t: u64 = times[i];
            proof {
                reveal(Seq::filter);
                assert(times@.take(i + 1).drop_last() =~= times@.take(i as int));
                assert(times@.take(i + 1).last() == t);
            }
            if self.counts_at(t, now) {
                kept.push(t);
            }
            i = i + 1;
        }
        proof {
            assert(times@.take(i as int) =~= times@);
        }
        kept.push(now);
        let breach: bool = kept.len() >= self.crash_loop_threshold as usize;
        *times = kept;
        breach
    }
}

/// Once the schedule has reached the cap it stays there.
pub proof fn lemma_delay_capped_stays_capped(policy: RestartPolicy, early: nat, late: nat)
    requires
        early <= late,
        policy.backoff_base_ms as nat * pow2(early) >= policy.backoff_cap_ms,
    ensures
        policy.backoff_base_ms as nat * pow2(late) >= policy.backoff_cap_ms,
{
    if early < late {
        lemma_pow2_strictly_increases(early, late);
    }
    let base = policy.backoff_base_ms as nat;
    let lo = pow2(early);
    let hi = pow2(late);
    assert(lo <= hi ==> base * lo <= base * hi) by (nonlinear_arith);
}

/// No delay of the schedule is longer than the cap, so each fits the type of
/// the delays that the supervisor hands out.
pub proof fn lemma_delay_fits(policy: RestartPolicy, attempt: nat)
    ensures
        policy.delay(attempt) <= policy.backoff_cap_ms,
        policy.delay(attempt) <= u64::MAX,
{
}

/// The backoff schedule never shortens a delay: a later attempt waits at
/// least as long as an earlier one.
pub proof fn lemma_delay_monotone(policy: RestartPolicy, earlier: nat, later: nat)
    requires
        earlier <= later,
    ensures
        policy.delay(earlier) <= policy.delay(later),
{
    if earlier >= 1 && earlier < later {
        lemma_pow2_strictly_increases((earlier - 1) as nat, (later - 1) as nat);
        let base = policy.backoff_base_ms as nat;
        let lo = pow2((earlier - 1) as nat);
        let hi = pow2((later - 1) as nat);
        assert(lo <= hi ==> base * lo <= base * hi) by (nonlinear_arith);
    }
}

/// Under a valid policy, across consecutive attempts the delay strictly
/// increases or stays at the cap. No delay is longer than the cap.
pub proof fn lemma_delay_increases_or_capped(policy: RestartPolicy, attempt: nat)
    requires
        policy.valid(),
    ensures
        policy.delay(attempt) <= policy.delay(attempt + 1),
        policy.delay(attempt) < policy.delay(attempt + 1) || policy.delay(attempt + 1)
            == policy.backoff_cap_ms,
        policy.delay(attempt) <= policy.backoff_cap_ms,
{
    let base = policy.backoff_base_ms as nat;
    lemma_delay_monotone(policy, attempt, attempt + 1);
    if attempt == 0 {
        vstd::arithmetic::power2::lemma2_to64();
        assert(base * 1 == base);
    } else {
        let lo = pow2((attempt - 1) as nat);
        lemma_pow2_pos((attempt - 1) as nat);
        lemma_pow2_unfold(attempt);
        assert(base >= 1 && lo >= 1 ==> base * lo < base * (2 * lo)) by (nonlinear_arith);
    }
}

} // verus!
