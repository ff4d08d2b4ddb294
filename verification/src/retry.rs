//! Spreading retry delays with random jitter.
use vstd::prelude::*;

verus! {

/// A random number in `0..=max`, drawn with `fastrand::u64`.
///
/// Trusted: the crate's generator returns a value of the range it is given
/// (the range is never empty here); which value is a matter of chance.
#[verifier::external_body]
fn random_up_to(max: u64) -> (r: u64)
    ensures
        r <= max,
{
    fastrand::u64(0..=max)
}

/// The largest delay, in milliseconds, that jitter is applied to: delays
/// travel through signed 64-bit arithmetic.
pub open spec fn max_jitter_input() -> int {
    i64::MAX as int
}

/// `delay_ms` moved by the drawn `offset`: with `j` the half of `delay_ms`
/// (rounded down) and `offset` in `0..=2j`, the delay `delay_ms - j + offset`.
pub fn apply_jitter(delay_ms: u64, offset: u64) -> (r: u64)
    requires
        delay_ms <= max_jitter_input(),
        offset <= 2 * (delay_ms / 2),
    ensures
        r == delay_ms - delay_ms / 2 + offset,
{
    delay_ms - delay_ms / 2 + offset
}

/// `delay_ms` moved by a random amount of at most half of it, either way:
/// `apply_jitter` with an offset drawn from `0..=2j`, `j` being the half of
/// `delay_ms` (rounded down).
pub fn jittered_delay_ms(delay_ms: u64) -> (r: u64)
    requires
        delay_ms <= max_jitter_input(),
    ensures
        delay_ms - delay_ms / 2 <= r <= delay_ms + delay_ms / 2,
{
    let jitter_ms = delay_ms / 2;
    let offset = random_up_to(jitter_ms * 2);
    apply_jitter(delay_ms, offset)
}

/// The statuses retried by default: request timeout, too many requests,
/// and the server errors 500, 502, 503 and 504.
pub open spec fn default_retry_status_list() -> Seq<u16> {
    seq![408u16, 429u16, 500u16, 502u16, 503u16, 504u16]
}

/// The statuses retried by default.
pub fn default_retry_statuses() -> (v: Vec<u16>)
    ensures
        v@ == default_retry_status_list(),
{
    let mut v: Vec<u16> = Vec::new();
    v.push(408);
    v.push(429);
    v.push(500);
    v.push(502);
    v.push(503);
    v.push(504);
    assert(v@ =~= default_retry_status_list());
    v
}

/// Whether a response status asks for a retry: it is one of `retry_on`.
pub fn should_retry_status(retry_on: &Vec<u16>, status: u16) -> (r: bool)
    ensures
        r == retry_on@.contains(status),
{
    let mut i: usize = 0;
    while i < retry_on.len()
        invariant
            i <= retry_on@.len(),
            forall|j: int| 0 <= j < i ==> retry_on@[j] != status,
        decreases retry_on@.len() - i,
    {
        if retry_on[i] == status {
            assert(retry_on@[i as int] == status);
            return true;
        }
        i = i + 1;
    }
    false
}

} // verus!
