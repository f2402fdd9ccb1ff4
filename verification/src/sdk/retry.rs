//! When to try again to connect.
use vstd::arithmetic::power2::pow2;
use vstd::prelude::*;

verus! {

/// The shortest wait after a failed attempt, in milliseconds. Attempts count
/// from zero; the wait doubles up to the seventh.
pub open spec fn shortest_wait(attempt: u32) -> nat {
    100 * pow2(
        if attempt < 6 {
            attempt as nat
        } else {
            6
        },
    )
}

/// The shortest wait after a failed attempt, in milliseconds.
pub fn base_delay_ms(attempt: u32) -> (r: u64)
    ensures
        r == shortest_wait(attempt),
        100 <= r <= 6400,
{
    let doublings: u64 = if attempt < 6 {
        attempt as u64
    } else {
        6
    };
    proof {
        vstd::arithmetic::power2::lemma2_to64();
        if doublings < 6 {
            vstd::arithmetic::power2::lemma_pow2_strictly_increases(doublings as nat, 6);
        }
        if doublings > 0 {
            vstd::arithmetic::power2::lemma_pow2_strictly_increases(0, doublings as nat);
        }
        vstd::bits::lemma_u64_shl_is_mul(1, doublings);
    }
    100 * (1u64 << doublings)
}

/// `rand::Rng::gen_range` on the thread's generator: some number below the
/// limit. Which one is chance.
#[verifier::external_body]
fn below(limit: u64) -> (r: u64)
    requires
        limit > 0,
    ensures
        r < limit,
{
    rand::Rng::gen_range(&mut rand::thread_rng(), 0..limit)
}

/// The wait after a failed attempt that was not the last one, lengthened by
/// `jitter`.
pub fn delay_with(attempt: u32, max_retries: u32, jitter: u64) -> (r: Option<u64>)
    requires
        jitter <= shortest_wait(attempt) / 2,
    ensures
        match r {
            Some(ms) => attempt < max_retries && ms == shortest_wait(attempt) + jitter,
            None => attempt >= max_retries,
        },
{
    if attempt < max_retries {
        Some(base_delay_ms(attempt) + jitter)
    } else {
        None
    }
}

/// The wait after a failed attempt, in milliseconds; none after the last. It is
/// longer than the shortest by up to a half, by chance, so that clients do not
/// all come back at once.
pub fn retry_delay_ms(attempt: u32, max_retries: u32) -> (r: Option<u64>)
    ensures
        match r {
            Some(ms) => attempt < max_retries && shortest_wait(attempt) <= ms <= shortest_wait(
                attempt,
            ) + shortest_wait(attempt) / 2,
            None => attempt >= max_retries,
        },
{
    let base: u64 = base_delay_ms(attempt);
    let jitter = below(base / 2 + 1);
    delay_with(attempt, max_retries, jitter)
}

/// A client that failed tries again no sooner the more often it failed, and
/// never waits ten seconds or more.
pub proof fn law_waits_grow_to_a_limit(attempt: u32, later: u32)
    requires
        attempt <= later,
    ensures
        shortest_wait(attempt) <= shortest_wait(later),
        shortest_wait(later) + shortest_wait(later) / 2 < 10_000,
{
    vstd::arithmetic::power2::lemma2_to64();
    let a = if attempt < 6 {
        attempt as nat
    } else {
        6
    };
    let b = if later < 6 {
        later as nat
    } else {
        6
    };
    if a < b {
        vstd::arithmetic::power2::lemma_pow2_strictly_increases(a, b);
    }
    assert(pow2(b) <= 64) by {
        if b < 6 {
            vstd::arithmetic::power2::lemma_pow2_strictly_increases(b, 6);
        }
    }
}

} // verus!
