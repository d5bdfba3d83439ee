//! Time readings: the instants a session keeps and the time that passed
//! since them.

use vstd::prelude::*;
use vstd::std_specs::hash::DefaultHasherAdditionalSpecFns;
use std::collections::hash_map::DefaultHasher;
use std::hash::Hasher;
use std::time::{Duration, Instant, SystemTime};

verus! {

#[verifier::external_type_specification]
#[verifier::external_body]
pub struct ExInstant(std::time::Instant);

/// The nanoseconds of a span of time.
pub uninterp spec fn duration_nanos(d: Duration) -> u128;

/// `Duration::as_nanos`: the whole span in nanoseconds; stated through the
/// name `duration_nanos`, a function of the span alone.
#[verifier::external_body]
pub fn duration_as_nanos(d: &Duration) -> (r: u128)
    ensures
        r == duration_nanos(*d),
{
    d.as_nanos()
}

/// `Instant::now`: the current instant. Nothing is stated of it: it is
/// whatever the clock reads.
#[verifier::external_body]
pub fn instant_now() -> Instant {
    Instant::now()
}

/// The nanoseconds since `t` (see `elapsed_since`): the nanoseconds of a
/// span, which the clock decides.
pub fn nanos_since(t: &Instant) -> (r: u128)
    ensures
        exists|d: Duration| r == #[trigger] duration_nanos(d),
{
    let d = elapsed_since(t);
    let r = duration_as_nanos(&d);
    assert(r == duration_nanos(d));
    r
}

#[verifier::external_type_specification]
#[verifier::external_body]
pub struct ExSystemTime(std::time::SystemTime);

/// `SystemTime::now`: the system clock's reading. Nothing is stated of it.
#[verifier::external_body]
pub fn system_now() -> SystemTime {
    SystemTime::now()
}

/// `SystemTime::duration_since` the Unix epoch: the time since then, or
/// none for a reading before it. Nothing is stated of its value.
#[verifier::external_body]
pub fn since_unix_epoch(t: &SystemTime) -> Option<Duration> {
    t.duration_since(std::time::UNIX_EPOCH).ok()
}

/// Nanoseconds since the Unix epoch by the system clock (0 for a clock set
/// before the epoch): the nanoseconds of the span since the epoch, which
/// depends on the clock.
pub fn nanos_since_epoch() -> (r: u128)
    ensures
        r == 0 || exists|d: Duration| r == #[trigger] duration_nanos(d),
{
    match since_unix_epoch(&system_now()) {
        Some(d) => {
            let r = duration_as_nanos(&d);
            assert(r == duration_nanos(d));
            r
        },
        None => 0,
    }
}

/// The sixteen bytes of a number, least significant first.
pub open spec fn le_bytes_u128(v: u128) -> Seq<u8> {
    Seq::new(16, |k: int| ((v as int / vstd::arithmetic::power::pow(256, k as nat)) % 256) as u8)
}

/// The sixteen bytes of a number, most significant first.
pub open spec fn be_bytes_u128(v: u128) -> Seq<u8> {
    le_bytes_u128(v).reverse()
}

/// `u128::to_ne_bytes`: the number's bytes in the machine's order, which
/// is either little-endian or big-endian.
#[verifier::external_body]
fn ne_bytes_u128(v: u128) -> (r: Vec<u8>)
    ensures
        r@ == le_bytes_u128(v) || r@ == be_bytes_u128(v),
{
    v.to_ne_bytes().to_vec()
}

/// `d` is the `DefaultHasher` digest of `v`'s bytes in one of the two
/// machine byte orders.
pub open spec fn digest_of(v: u128, d: u64) -> bool {
    ||| d == DefaultHasher::spec_finish(seq![le_bytes_u128(v)])
    ||| d == DefaultHasher::spec_finish(seq![be_bytes_u128(v)])
}

/// A `DefaultHasher` digest of a number: a fresh hasher fed the number's
/// bytes in the machine's order (which is how a number is hashed).
pub fn hash_u128(v: u128) -> (r: u64)
    ensures
        digest_of(v, r),
{
    let bytes = ne_bytes_u128(v);
    let mut hasher = DefaultHasher::new();
    hasher.write(bytes.as_slice());
    let r = hasher.finish();
    assert(hasher@ =~= seq![bytes@]);
    r
}

/// `Duration::as_secs`: the whole seconds of a span.
#[verifier::external_body]
pub fn duration_secs(d: &Duration) -> (r: u64)
    ensures
        r == duration_nanos(*d) / 1_000_000_000,
{
    d.as_secs()
}

/// `Instant::duration_since`: the time from `earlier` to `later` (zero when
/// `earlier` is the later one). Nothing is stated of it: the instants are
/// clock readings.
#[verifier::external_body]
pub fn instant_between(later: &Instant, earlier: &Instant) -> Duration {
    later.duration_since(*earlier)
}

/// `Duration::from_secs`: a span of whole seconds, that is `secs` times
/// one billion nanoseconds.
#[verifier::external_body]
pub fn seconds(secs: u64) -> (r: Duration)
    ensures
        duration_nanos(r) == secs as u128 * 1_000_000_000,
{
    Duration::from_secs(secs)
}

/// `Instant::elapsed`: the time since `t`. Nothing is stated of it: it
/// depends on the clock.
#[verifier::external_body]
pub fn elapsed_since(t: &Instant) -> Duration {
    t.elapsed()
}

} // verus!
