pub mod crates_io;
pub mod github;
pub mod osv;

use vstd::prelude::*;

verus! {

/// The wait before the first retry, in seconds.
pub const INITIAL_BACKOFF_SECS: u64 = 1;

/// The longest wait between two attempts, in seconds.
pub const MAX_BACKOFF_SECS: u64 = 30;

/// Where a retry loop stands: how many attempts it has made and the base wait
/// (before jitter) that precedes the next retry.
#[derive(Debug, Clone, Copy, PartialEq, Eq)]
pub struct RetryState {
    pub attempts: usize,
    pub backoff_secs: u64,
}

/// What the loop does after an attempt.
#[derive(Debug, Clone, Copy, PartialEq, Eq)]
pub enum RetryDecision {
    /// Hand back the outcome of the attempt just made (success, or the last failure).
    Return,
    /// Wait about `backoff_secs` seconds (jitter is applied by the caller), then try again.
    RetryAfter { backoff_secs: u64 },
}

/// A loop that has made no attempt yet.
pub open spec fn initial_retry_state() -> RetryState {
    RetryState { attempts: 0, backoff_secs: INITIAL_BACKOFF_SECS }
}

/// The wait after `backoff_secs`: doubled, but never above `MAX_BACKOFF_SECS`.
pub open spec fn doubled_backoff(backoff_secs: u64) -> u64 {
    if 2 * backoff_secs < MAX_BACKOFF_SECS {
        (2 * backoff_secs) as u64
    } else {
        MAX_BACKOFF_SECS
    }
}

/// One step of the retry loop: the attempt is counted; a success, or a
/// failure once `max_attempts` attempts have been made, is returned; any other
/// failure is retried after the current wait, which then doubles up to the cap.
pub open spec fn retry_step(state: RetryState, succeeded: bool, max_attempts: usize) -> (
    RetryState,
    RetryDecision,
) {
    let attempts = (state.attempts + 1) as usize;
    if succeeded || attempts >= max_attempts {
        (RetryState { attempts, backoff_secs: state.backoff_secs }, RetryDecision::Return)
    } else {
        (
            RetryState { attempts, backoff_secs: doubled_backoff(state.backoff_secs) },
            RetryDecision::RetryAfter { backoff_secs: state.backoff_secs },
        )
    }
}

/// The state of a retry loop before its first attempt.
pub fn start_retry() -> (state: RetryState)
    ensures
        state == initial_retry_state(),
{
    RetryState { attempts: 0, backoff_secs: INITIAL_BACKOFF_SECS }
}

/// Decides what follows an attempt that `succeeded` or failed.
pub fn after_attempt(state: &mut RetryState, succeeded: bool, max_attempts: usize) -> (decision:
    RetryDecision)
    requires
        old(state).attempts < usize::MAX,
        !succeeded && old(state).attempts + 1 < max_attempts ==> old(state).backoff_secs <= u64::MAX
            / 2,
    ensures
        (*final(state), decision) == retry_step(*old(state), succeeded, max_attempts),
{
    state.attempts = state.attempts + 1;
    if succeeded || state.attempts >= max_attempts {
        RetryDecision::Return
    } else {
        let wait = state.backoff_secs;
        let doubled = wait * 2;
        state.backoff_secs = if doubled < MAX_BACKOFF_SECS {
            doubled
        } else {
            MAX_BACKOFF_SECS
        };
        RetryDecision::RetryAfter { backoff_secs: wait }
    }
}

/// A whole run of the retry loop when the attempts turn out as `outcomes`
/// (`true` for success): the final state, the waits made between attempts,
/// and whether the loop returned before the outcomes ran out.
pub open spec fn retry_run(state: RetryState, outcomes: Seq<bool>, max_attempts: usize) -> (
    RetryState,
    Seq<u64>,
    bool,
)
    decreases outcomes.len(),
{
    if outcomes.len() == 0 {
        (state, Seq::empty(), false)
    } else {
        let (next, decision) = retry_step(state, outcomes[0], max_attempts);
        match decision {
            RetryDecision::Return => (next, Seq::empty(), true),
            RetryDecision::RetryAfter { backoff_secs } => {
                let (last, waits, returned) = retry_run(
                    next,
                    outcomes.drop_first(),
                    max_attempts,
                );
                (last, seq![backoff_secs] + waits, returned)
            },
        }
    }
}

/// The wait before the `i`-th retry (counting from 0) of a fresh loop:
/// one second, doubling each time, capped at `MAX_BACKOFF_SECS`.
pub open spec fn backoff_before_retry(i: nat) -> u64
    decreases i,
{
    if i == 0 {
        INITIAL_BACKOFF_SECS
    } else {
        doubled_backoff(backoff_before_retry((i - 1) as nat))
    }
}

spec fn backoff_from(b: u64, i: nat) -> u64
    decreases i,
{
    if i == 0 {
        b
    } else {
        doubled_backoff(backoff_from(b, (i - 1) as nat))
    }
}

proof fn lemma_backoff_from_shift(b: u64, i: nat)
    ensures
        backoff_from(doubled_backoff(b), i) == backoff_from(b, i + 1),
    decreases i,
{
    if i > 0 {
        lemma_backoff_from_shift(b, (i - 1) as nat);
        assert(backoff_from(b, i) == doubled_backoff(backoff_from(b, (i - 1) as nat)));
    }
    assert(backoff_from(b, i + 1) == doubled_backoff(backoff_from(b, i)));
}

proof fn lemma_backoff_from_start(i: nat)
    ensures
        backoff_from(INITIAL_BACKOFF_SECS, i) == backoff_before_retry(i),
        backoff_before_retry(i) <= MAX_BACKOFF_SECS,
    decreases i,
{
    if i > 0 {
        lemma_backoff_from_start((i - 1) as nat);
    }
}

proof fn lemma_run_general(state: RetryState, outcomes: Seq<bool>, max_attempts: usize)
    requires
        state.attempts < usize::MAX,
        state.attempts < max_attempts || state.attempts == 0,
    ensures
        ({
            let (last, waits, returned) = retry_run(state, outcomes, max_attempts);
            &&& state.attempts <= last.attempts
            &&& last.attempts <= (if max_attempts > state.attempts + 1 {
                max_attempts as int
            } else {
                state.attempts + 1
            })
            &&& forall|i: int| 0 <= i < waits.len() ==> #[trigger] waits[i] == backoff_from(
                state.backoff_secs,
                i as nat,
            )
        }),
    decreases outcomes.len(),
{
    if outcomes.len() > 0 {
        let (next, decision) = retry_step(state, outcomes[0], max_attempts);
        if let RetryDecision::RetryAfter { backoff_secs } = decision {
            lemma_run_general(next, outcomes.drop_first(), max_attempts);
            let (last, waits, returned) = retry_run(next, outcomes.drop_first(), max_attempts);
            let all = seq![backoff_secs] + waits;
            assert forall|i: int| 0 <= i < all.len() implies #[trigger] all[i] == backoff_from(
                state.backoff_secs,
                i as nat,
            ) by {
                if i > 0 {
                    assert(all[i] == waits[i - 1]);
                    lemma_backoff_from_shift(state.backoff_secs, (i - 1) as nat);
                }
            }
        }
    }
}

/// A fresh retry loop never makes more than `max_attempts` attempts (one,
/// when `max_attempts` is zero), and its waits are one second, then doubling,
/// capped at `MAX_BACKOFF_SECS`.
pub proof fn law_retry_bounded(outcomes: Seq<bool>, max_attempts: usize)
    ensures
        ({
            let (last, waits, returned) = retry_run(initial_retry_state(), outcomes, max_attempts);
            &&& last.attempts <= (if max_attempts > 1 {
                max_attempts as int
            } else {
                1
            })
            &&& forall|i: int| 0 <= i < waits.len() ==> #[trigger] waits[i]
                == backoff_before_retry(i as nat) && waits[i] <= MAX_BACKOFF_SECS
        }),
{
    lemma_run_general(initial_retry_state(), outcomes, max_attempts);
    let (last, waits, returned) = retry_run(initial_retry_state(), outcomes, max_attempts);
    assert forall|i: int| 0 <= i < waits.len() implies #[trigger] waits[i]
        == backoff_before_retry(i as nat) && waits[i] <= MAX_BACKOFF_SECS by {
        lemma_backoff_from_start(i as nat);
    }
}

proof fn lemma_run_success(state: RetryState, outcomes: Seq<bool>, max_attempts: usize, k: int)
    requires
        0 <= k < outcomes.len(),
        outcomes[k],
        forall|j: int| 0 <= j < k ==> !#[trigger] outcomes[j],
        k == 0 || state.attempts + k < max_attempts,
        state.attempts + k < usize::MAX,
    ensures
        retry_run(state, outcomes, max_attempts).2,
        retry_run(state, outcomes, max_attempts).0.attempts == state.attempts + k + 1,
    decreases k,
{
    if k > 0 {
        let rest = outcomes.drop_first();
        assert(!outcomes[0]);
        assert forall|j: int| 0 <= j < k - 1 implies !#[trigger] rest[j] by {
            assert(rest[j] == outcomes[j + 1]);
        }
        assert(rest[k - 1] == outcomes[k]);
        let (next, decision) = retry_step(state, outcomes[0], max_attempts);
        lemma_run_success(next, rest, max_attempts, k - 1);
    }
}

/// The loop returns right after the first successful attempt, provided that
/// attempt comes within `max_attempts` (the first attempt is always made).
pub proof fn law_retry_returns_first_success(outcomes: Seq<bool>, max_attempts: usize, k: int)
    requires
        0 <= k < outcomes.len(),
        outcomes[k],
        forall|j: int| 0 <= j < k ==> !#[trigger] outcomes[j],
        k == 0 || k < max_attempts,
    ensures
        retry_run(initial_retry_state(), outcomes, max_attempts).2,
        retry_run(initial_retry_state(), outcomes, max_attempts).0.attempts == k + 1,
{
    lemma_run_success(initial_retry_state(), outcomes, max_attempts, k);
}

proof fn lemma_run_failures(state: RetryState, outcomes: Seq<bool>, max_attempts: usize)
    requires
        state.attempts < max_attempts,
        outcomes.len() >= max_attempts - state.attempts,
        forall|j: int| 0 <= j < max_attempts - state.attempts ==> !#[trigger] outcomes[j],
    ensures
        retry_run(state, outcomes, max_attempts).2,
        retry_run(state, outcomes, max_attempts).0.attempts == max_attempts,
    decreases max_attempts - state.attempts,
{
    assert(!outcomes[0]);
    let (next, decision) = retry_step(state, outcomes[0], max_attempts);
    if state.attempts + 1 < max_attempts {
        let rest = outcomes.drop_first();
        assert forall|j: int| 0 <= j < max_attempts - next.attempts implies !#[trigger] rest[j] by {
            assert(rest[j] == outcomes[j + 1]);
        }
        lemma_run_failures(next, rest, max_attempts);
    }
}

/// When every one of the first `max_attempts` attempts fails, the loop makes
/// exactly `max_attempts` attempts and then returns the last failure.
pub proof fn law_retry_gives_up_after_max(outcomes: Seq<bool>, max_attempts: usize)
    requires
        max_attempts >= 1,
        outcomes.len() >= max_attempts,
        forall|j: int| 0 <= j < max_attempts ==> !#[trigger] outcomes[j],
    ensures
        retry_run(initial_retry_state(), outcomes, max_attempts).2,
        retry_run(initial_retry_state(), outcomes, max_attempts).0.attempts == max_attempts,
{
    lemma_run_failures(initial_retry_state(), outcomes, max_attempts);
}

} // verus!
