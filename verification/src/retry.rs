//! Webhook delivery state machine: bounded retries with exponential backoff.
//!
//! A webhook target gets up to `max_retries` retries after the first attempt.
//! A response classified as transient moves the machine to the next attempt
//! (after an exponential delay); a permanent failure gives up at once; a
//! success ends the delivery.

use vstd::prelude::*;

verus! {

/// How one delivery attempt's outcome is classified.
#[derive(Clone, Copy, PartialEq, Eq, Structural, Debug)]
pub enum ResponseClass {
    /// A 2xx-equivalent response.
    Success,
    /// A network error or server-side error class: worth retrying.
    Transient,
    /// A client-side error class: retrying cannot help.
    Permanent,
}

/// The response class of an HTTP status code: a 2xx is success, a 4xx is a
/// client-side (permanent) error, and everything else - server-side error
/// classes and oddities - is worth retrying.
pub open spec fn spec_classify_status(code: u16) -> ResponseClass {
    if 200 <= code < 300 {
        ResponseClass::Success
    } else if 400 <= code < 500 {
        ResponseClass::Permanent
    } else {
        ResponseClass::Transient
    }
}

/// Classify one HTTP status code.
pub fn classify_status(code: u16) -> (r: ResponseClass)
    ensures
        r == spec_classify_status(code),
{
    if 200 <= code && code < 300 {
        ResponseClass::Success
    } else if 400 <= code && code < 500 {
        ResponseClass::Permanent
    } else {
        ResponseClass::Transient
    }
}

/// The state of one (event, webhook sink) delivery.
#[derive(Clone, Copy, PartialEq, Eq, Structural, Debug)]
pub enum DeliveryState {
    /// Attempt `n` (1-based) is in flight.
    Attempting(u32),
    /// A 2xx-equivalent response arrived.
    Succeeded,
    /// The attempt budget is exhausted, or a permanent error arrived.
    GivenUp,
}

/// A delivery in state `Attempting(n)` never has `n` past the attempt budget.
pub open spec fn state_within_budget(s: DeliveryState, max_attempts: u32) -> bool {
    match s {
        DeliveryState::Attempting(n) => 1 <= n <= max_attempts,
        _ => true,
    }
}

/// Where attempt `n` with outcome `r` leads, with a budget of `max_attempts`.
pub open spec fn spec_delivery_step(
    s: DeliveryState,
    max_attempts: u32,
    r: ResponseClass,
) -> DeliveryState {
    match s {
        DeliveryState::Attempting(n) => match r {
            ResponseClass::Success => DeliveryState::Succeeded,
            ResponseClass::Permanent => DeliveryState::GivenUp,
            ResponseClass::Transient => if n < max_attempts {
                DeliveryState::Attempting((n + 1) as u32)
            } else {
                DeliveryState::GivenUp
            },
        },
        _ => s,
    }
}

/// Advance the delivery state machine by one observed outcome.
pub fn delivery_step(s: DeliveryState, max_attempts: u32, r: ResponseClass) -> (t: DeliveryState)
    requires
        state_within_budget(s, max_attempts),
    ensures
        t == spec_delivery_step(s, max_attempts, r),
        state_within_budget(t, max_attempts),
{
    match s {
        DeliveryState::Attempting(n) => match r {
            ResponseClass::Success => DeliveryState::Succeeded,
            ResponseClass::Permanent => DeliveryState::GivenUp,
            ResponseClass::Transient => if n < max_attempts {
                DeliveryState::Attempting(n + 1)
            } else {
                DeliveryState::GivenUp
            },
        },
        _ => s,
    }
}

/// 2^k.
pub open spec fn pow2(k: nat) -> nat
    decreases k,
{
    if k == 0 {
        1
    } else {
        2 * pow2((k - 1) as nat)
    }
}

pub proof fn lemma_pow2_monotonic(i: nat, j: nat)
    requires
        i <= j,
    ensures
        pow2(i) <= pow2(j),
    decreases j,
{
    if i < j {
        lemma_pow2_monotonic(i, (j - 1) as nat);
        assert(pow2(j) == 2 * pow2((j - 1) as nat));
    }
}

/// The delay before attempt `k + 1`, having just failed attempt `k`:
/// `base * 2^(k-1)`, exponential in the attempt number.
pub open spec fn spec_backoff_delay(base: u64, k: u32) -> int
    recommends
        k >= 1,
{
    base * pow2((k - 1) as nat)
}

/// Compute the backoff delay before attempt `k + 1`.
pub fn backoff_delay(base: u64, k: u32) -> (d: u64)
    requires
        1 <= k,
        base * pow2((k - 1) as nat) <= u64::MAX,
    ensures
        d == spec_backoff_delay(base, k),
{
    proof {
        assert(pow2(0) == 1);
        assert(base * pow2(0) == base) by (nonlinear_arith)
            requires
                pow2(0) == 1,
        ;
    }
    let mut d: u64 = base;
    let mut i: u32 = 1;
    while i < k
        invariant
            1 <= i <= k,
            d == base * pow2((i - 1) as nat),
            base * pow2((k - 1) as nat) <= u64::MAX,
        decreases k - i,
    {
        proof {
            lemma_pow2_monotonic(i as nat, (k - 1) as nat);
            assert(base * pow2(i as nat) <= base * pow2((k - 1) as nat)) by (nonlinear_arith)
                requires
                    pow2(i as nat) <= pow2((k - 1) as nat),
                    base >= 0,
            ;
            assert(base * pow2(i as nat) == 2 * (base * pow2((i - 1) as nat))) by (nonlinear_arith)
                requires
                    pow2(i as nat) == 2 * pow2((i - 1) as nat),
            ;
        }
        d = d * 2;
        i = i + 1;
    }
    d
}

/// What one whole delivery comes to: starting in `s` with `made` outcomes
/// consumed so far, consume outcomes until the machine leaves `Attempting`
/// or the outcomes run out; the result pairs the number of attempts made
/// with the final state.
pub open spec fn spec_deliver(
    s: DeliveryState,
    max_attempts: u32,
    outs: Seq<ResponseClass>,
    made: nat,
) -> (nat, DeliveryState)
    decreases outs.len(),
{
    match s {
        DeliveryState::Attempting(_) => if outs.len() == 0 {
            (made, s)
        } else {
            spec_deliver(
                spec_delivery_step(s, max_attempts, outs[0]),
                max_attempts,
                outs.drop_first(),
                made + 1,
            )
        },
        _ => (made, s),
    }
}

/// The record of one webhook delivery: how many attempts were made, where the
/// state machine ended, and the delay that preceded each retry.
#[derive(Debug, PartialEq)]
pub struct DeliveryRecord {
    pub attempts: u32,
    pub state: DeliveryState,
    pub delays: Vec<u64>,
}

/// Drive one webhook delivery to its end, attempt by attempt, against the
/// outcome each attempt would meet. The attempt budget is `max_retries + 1`:
/// the first attempt plus at most `max_retries` retries. The attempt count
/// never exceeds that budget, and the delay recorded before retry `k + 1`
/// is exactly `base * 2^(k-1)`.
pub fn run_webhook_delivery(max_retries: u32, base: u64, outcomes: &Vec<ResponseClass>) -> (r:
    DeliveryRecord)
    requires
        max_retries < u32::MAX,
        base * pow2(max_retries as nat) <= u64::MAX,
    ensures
        (r.attempts as nat, r.state) == spec_deliver(
            DeliveryState::Attempting(1),
            (max_retries + 1) as u32,
            outcomes@,
            0,
        ),
        r.attempts <= max_retries + 1,
        state_within_budget(r.state, (max_retries + 1) as u32),
        r.delays@.len() == if r.state is Attempting {
            r.attempts as int
        } else if r.attempts >= 1 {
            r.attempts - 1
        } else {
            0
        },
        forall|k: int| 0 <= k < r.delays@.len() ==> r.delays@[k] == base * pow2(k as nat),
{
    let max_attempts: u32 = max_retries + 1;
    let ghost total = spec_deliver(DeliveryState::Attempting(1), max_attempts, outcomes@, 0);
    let mut state = DeliveryState::Attempting(1);
    let mut made: u32 = 0;
    let mut delays: Vec<u64> = Vec::new();
    let mut idx: usize = 0;
    proof {
        assert(outcomes@.skip(0) =~= outcomes@);
    }
    loop
        invariant
            max_attempts == max_retries + 1,
            max_retries < u32::MAX,
            base * pow2(max_retries as nat) <= u64::MAX,
            idx == made,
            idx <= outcomes@.len(),
            made <= max_attempts,
            state is Attempting ==> made < max_attempts,
            state_within_budget(state, max_attempts),
            state is Attempting ==> state == DeliveryState::Attempting((made + 1) as u32),
            spec_deliver(state, max_attempts, outcomes@.skip(idx as int), made as nat) == total,
            delays@.len() == if state is Attempting {
                made as int
            } else if made >= 1 {
                made - 1
            } else {
                0
            },
            forall|k: int| 0 <= k < delays@.len() ==> delays@[k] == base * pow2(k as nat),
        ensures
            idx == made,
            idx <= outcomes@.len(),
            made <= max_attempts,
            state_within_budget(state, max_attempts),
            spec_deliver(state, max_attempts, outcomes@.skip(idx as int), made as nat) == total,
            !(state is Attempting) || idx >= outcomes@.len(),
            delays@.len() == if state is Attempting {
                made as int
            } else if made >= 1 {
                made - 1
            } else {
                0
            },
            forall|k: int| 0 <= k < delays@.len() ==> delays@[k] == base * pow2(k as nat),
        decreases outcomes@.len() - idx + (if state is Attempting { 1int } else { 0int }),
    {
        let attempting = match state {
            DeliveryState::Attempting(_) => true,
            _ => false,
        };
        if !attempting || idx >= outcomes.len() {
            break;
        }
        let out = outcomes[idx];
        let next = delivery_step(state, max_attempts, out);
        proof {
            let s = outcomes@.skip(idx as int);
            assert(s[0] == outcomes@[idx as int]);
            assert(s.drop_first() =~= outcomes@.skip(idx as int + 1));
        }
        let still = match next {
            DeliveryState::Attempting(_) => true,
            _ => false,
        };
        if still {
            proof {
                assert(made + 1 < max_attempts);
                lemma_pow2_monotonic(made as nat, max_retries as nat);
                assert(base * pow2(made as nat) <= base * pow2(max_retries as nat))
                    by (nonlinear_arith)
                    requires
                        pow2(made as nat) <= pow2(max_retries as nat),
                        base >= 0,
                ;
            }
            let d = backoff_delay(base, made + 1);
            delays.push(d);
        }
        state = next;
        made = made + 1;
        idx = idx + 1;
    }
    proof {
        if idx >= outcomes@.len() {
            assert(outcomes@.skip(idx as int) =~= Seq::<ResponseClass>::empty());
        }
    }
    DeliveryRecord { attempts: made, state, delays }
}

/// From any live attempt within budget, a delivery makes at most
/// `max_attempts` attempts, whatever outcomes arrive.
proof fn lemma_deliver_attempt_bound(
    s: DeliveryState,
    max_attempts: u32,
    outs: Seq<ResponseClass>,
    made: nat,
)
    requires
        state_within_budget(s, max_attempts),
        s matches DeliveryState::Attempting(n) ==> made == n - 1,
        !(s is Attempting) ==> made <= max_attempts,
    ensures
        spec_deliver(s, max_attempts, outs, made).0 <= max_attempts,
    decreases outs.len(),
{
    match s {
        DeliveryState::Attempting(n) => {
            if outs.len() > 0 {
                lemma_deliver_attempt_bound(
                    spec_delivery_step(s, max_attempts, outs[0]),
                    max_attempts,
                    outs.drop_first(),
                    made + 1,
                );
            }
        },
        _ => {},
    }
}

/// The attempt count of a webhook delivery never exceeds its budget of
/// `max_retries + 1`: the first attempt plus the configured retries, however
/// the endpoint behaves.
pub proof fn lemma_webhook_attempt_bound(max_retries: u32, outs: Seq<ResponseClass>)
    requires
        max_retries < u32::MAX,
    ensures
        spec_deliver(DeliveryState::Attempting(1), (max_retries + 1) as u32, outs, 0).0
            <= max_retries + 1,
{
    lemma_deliver_attempt_bound(
        DeliveryState::Attempting(1),
        (max_retries + 1) as u32,
        outs,
        0,
    );
}

} // verus!
