//! The election timer's clock and dice: calls into tokio and rand.
use rand::Rng;
use vstd::prelude::*;

verus! {

/// The point in time at which an election timer fires.
#[verifier::external_type_specification]
#[verifier::external_body]
pub struct ExInstant(tokio::time::Instant);

/// The thread-local random number generator that picks election delays.
#[verifier::external_type_specification]
#[verifier::external_body]
pub struct ExThreadRng(rand::rngs::ThreadRng);

/// Lower bound, in milliseconds, of a randomised election delay.
pub const ELECTION_DELAY_MIN_MS: u64 = 1500;

/// Exclusive upper bound, in milliseconds, of a randomised election delay.
pub const ELECTION_DELAY_MAX_MS: u64 = 3000;

/// Calls `tokio::time::Instant::now`. The result is the current time of
/// the runtime's clock; nothing about it is stated.
#[verifier::external_body]
fn instant_now() -> tokio::time::Instant {
    tokio::time::Instant::now()
}

/// Calls `rand::thread_rng`, the lazily seeded thread-local generator.
#[verifier::external_body]
fn thread_rng() -> rand::rngs::ThreadRng {
    rand::thread_rng()
}

/// Calls `rand::Rng::gen_range` with the half-open range `low..high` on
/// `u64`. rand documents that the result lies in that range and that the
/// call panics on an empty range, which `requires` rules out.
#[verifier::external_body]
fn gen_range(rng: &mut rand::rngs::ThreadRng, low: u64, high: u64) -> (r: u64)
    requires
        low < high,
    ensures
        low <= r < high,
{
    rng.gen_range(low..high)
}

/// A random election delay in milliseconds, drawn from
/// `ELECTION_DELAY_MIN_MS..ELECTION_DELAY_MAX_MS`.
pub fn election_delay_ms() -> (ms: u64)
    ensures
        ELECTION_DELAY_MIN_MS <= ms < ELECTION_DELAY_MAX_MS,
{
    let mut rng = thread_rng();
    gen_range(&mut rng, ELECTION_DELAY_MIN_MS, ELECTION_DELAY_MAX_MS)
}

/// An election timer: armed at `armed_at`, it fires `delay_ms`
/// milliseconds later.
#[derive(Debug, Clone, Copy, PartialEq, Eq)]
pub struct ElectionTimer {
    pub armed_at: tokio::time::Instant,
    pub delay_ms: u64,
}

impl ElectionTimer {
    /// Whether the timer's delay lies in the election window.
    pub open spec fn in_election_window(self) -> bool {
        ELECTION_DELAY_MIN_MS <= self.delay_ms < ELECTION_DELAY_MAX_MS
    }
}

/// A fresh election timer: armed at the clock's current reading, with a
/// random delay of `ELECTION_DELAY_MIN_MS` up to `ELECTION_DELAY_MAX_MS`
/// milliseconds. The clock's reading itself cannot be stated.
pub fn fresh_election_timer() -> (t: ElectionTimer)
    ensures
        t.in_election_window(),
{
    let delay_ms = election_delay_ms();
    ElectionTimer { armed_at: instant_now(), delay_ms }
}

} // verus!
