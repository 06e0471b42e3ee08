use vstd::prelude::*;

use crate::job::BackoffStrategy;

verus! {

/// Two to the power `n`.
pub open spec fn pow2(n: nat) -> nat
    decreases n,
{
    if n == 0 {
        1
    } else {
        2 * pow2((n - 1) as nat)
    }
}

pub open spec fn min_int(a: int, b: int) -> int {
    if a <= b {
        a
    } else {
        b
    }
}

/// The delay, in seconds, before the retry that follows failed attempt
/// `attempt` (zero-indexed), clamped to `max`.
pub open spec fn backoff_delay(attempt: nat, strategy: BackoffStrategy, initial: nat, max: nat) -> int {
    let raw: int = match strategy {
        BackoffStrategy::Fixed => initial as int,
        BackoffStrategy::Linear => (initial * (attempt + 1)) as int,
        BackoffStrategy::Exponential => (initial * pow2(attempt)) as int,
    };
    min_int(raw, max as int)
}

pub proof fn lemma_pow2_positive(n: nat)
    ensures
        pow2(n) >= 1,
    decreases n,
{
    if n > 0 {
        lemma_pow2_positive((n - 1) as nat);
    }
}

pub proof fn lemma_pow2_monotonic(a: nat, b: nat)
    requires
        a <= b,
    ensures
        pow2(a) <= pow2(b),
    decreases b,
{
    if a < b {
        lemma_pow2_monotonic(a, (b - 1) as nat);
        lemma_pow2_positive((b - 1) as nat);
    }
}

/// Computes the backoff delay without overflow: the mathematical product is
/// compared against `max_delay` before it could leave the range of `u64`.
pub fn calculate_backoff_delay(
    attempt: u32,
    strategy: &BackoffStrategy,
    initial_delay: u64,
    max_delay: u64,
) -> (r: u64)
    ensures
        r == backoff_delay(attempt as nat, *strategy, initial_delay as nat, max_delay as nat),
{
    match strategy {
        BackoffStrategy::Fixed => {
            if initial_delay <= max_delay {
                initial_delay
            } else {
                max_delay
            }
        },
        BackoffStrategy::Linear => {
            let factor: u64 = attempt as u64 + 1;
            match initial_delay.checked_mul(factor) {
                Some(p) => {
                    if p <= max_delay {
                        p
                    } else {
                        max_delay
                    }
                },
                None => max_delay,
            }
        },
        BackoffStrategy::Exponential => {
            if initial_delay == 0 {
                proof {
                    assert(initial_delay * pow2(attempt as nat) == 0) by (nonlinear_arith)
                        requires
                            initial_delay == 0,
                    ;
                }
                return 0;
            }
            let mut d: u64 = initial_delay;
            let mut i: u32 = 0;
            proof {
                assert(pow2(0) == 1);
                assert(initial_delay * pow2(0) == initial_delay);
            }
            while i < attempt
                invariant
                    0 <= i <= attempt,
                    *strategy == BackoffStrategy::Exponential,
                    initial_delay >= 1,
                    d == initial_delay * pow2(i as nat),
                decreases attempt - i,
            {
                if d > max_delay {
                    proof {
                        lemma_pow2_monotonic(i as nat, attempt as nat);
                        assert(initial_delay * pow2(i as nat) <= initial_delay * pow2(attempt as nat))
                            by (nonlinear_arith)
                            requires
                                pow2(i as nat) <= pow2(attempt as nat),
                                initial_delay >= 1,
                        ;
                    }
                    return max_delay;
                }
                match d.checked_mul(2) {
                    Some(next) => {
                        proof {
                            assert(pow2((i + 1) as nat) == 2 * pow2(i as nat));
                            assert(initial_delay * (2 * pow2(i as nat)) == 2 * (initial_delay
                                * pow2(i as nat))) by (nonlinear_arith);
                        }
                        d = next;
                        i = i + 1;
                    },
                    None => {
                        proof {
                            assert(pow2((i + 1) as nat) == 2 * pow2(i as nat));
                            assert(initial_delay * (2 * pow2(i as nat)) == 2 * (initial_delay
                                * pow2(i as nat))) by (nonlinear_arith);
                            lemma_pow2_monotonic((i + 1) as nat, attempt as nat);
                            assert(initial_delay * pow2((i + 1) as nat) <= initial_delay * pow2(
                                attempt as nat)) by (nonlinear_arith)
                                requires
                                    pow2((i + 1) as nat) <= pow2(attempt as nat),
                                    initial_delay >= 1,
                            ;
                            assert(initial_delay * pow2(attempt as nat) > max_delay);
                        }
                        return max_delay;
                    },
                }
            }
            if d <= max_delay {
                d
            } else {
                max_delay
            }
        },
    }
}

} // verus!
