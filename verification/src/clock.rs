//! Time as the real time counter keeps it: in ticks since power-on.
use embassy_time::Duration;
use vstd::prelude::*;

verus! {

/// The rate of the real time counter, for which `embassy_time` is built by its feature
/// `tick-hz-32_768`.
pub const TICKS_PER_SECOND: u64 = 32_768;

/// The microseconds that `ticks` amount to, rounded down.
pub open spec fn micros_in(ticks: int) -> int {
    ticks * 1_000_000 / (TICKS_PER_SECOND as int)
}

/// The ticks that `millis` milliseconds amount to, rounded up.
pub open spec fn ticks_in(millis: int) -> int {
    (millis * TICKS_PER_SECOND + 999) / 1000
}

/// The time from `started` to `now` can be told in microseconds: it does not run backwards, and
/// the conversion, which takes it times 15625, stays in range.
pub open spec fn measurable(started: u64, now: u64) -> bool {
    &&& started <= now
    &&& (now - started) * 15_625 <= u64::MAX
}

/// `embassy_time::Duration::as_micros` of a duration of so many ticks: the microseconds, rounded
/// down, at the rate of `TICKS_PER_SECOND` that `embassy_time` is built for.
#[verifier::external_body]
pub(crate) fn ticks_to_micros(ticks: u64) -> (micros: u64)
    requires
        ticks * 15_625 <= u64::MAX,
    ensures
        micros == micros_in(ticks as int),
{
    Duration::from_ticks(ticks).as_micros()
}

/// `embassy_time::Duration::from_millis`: the ticks that so many milliseconds take, rounded up, at
/// the rate of `TICKS_PER_SECOND` that `embassy_time` is built for.
#[verifier::external_body]
pub(crate) fn millis_to_ticks(millis: u64) -> (ticks: u64)
    requires
        millis * 4096 + 125 <= u64::MAX,
    ensures
        ticks == ticks_in(millis as int),
{
    Duration::from_millis(millis).as_ticks()
}

/// The microseconds from tick `started` to tick `now`, as many as 32 bits can tell.
pub open spec fn elapsed_micros(started: u64, now: u64) -> u32 {
    if micros_in(now - started) < u32::MAX {
        micros_in(now - started) as u32
    } else {
        u32::MAX
    }
}

/// The microseconds from tick `started` to tick `now`; where 32 bits cannot tell them, the most
/// that they can.
pub fn elapsed_micros_u32(started: u64, now: u64) -> (micros: u32)
    requires
        measurable(started, now),
    ensures
        micros == elapsed_micros(started, now),
{
    let micros: u64 = ticks_to_micros(now - started);
    if micros < u32::MAX as u64 {
        micros as u32
    } else {
        u32::MAX
    }
}

/// Whether at least `millis` milliseconds have passed from tick `since` to tick `now`.
pub fn has_passed(since: u64, now: u64, millis: u64) -> (passed: bool)
    requires
        since <= now,
        millis * 4096 + 125 <= u64::MAX,
    ensures
        passed == (now - since >= ticks_in(millis as int)),
{
    now - since >= millis_to_ticks(millis)
}

/// Whether the time from `started` to `now` can be told in microseconds.
pub fn is_measurable(started: u64, now: u64) -> (fits: bool)
    ensures
        fits == measurable(started, now),
{
    started <= now && now - started <= u64::MAX / 15_625
}

/// A longer time is never told as a shorter one.
pub proof fn elapsed_is_monotone(started: u64, sooner: u64, later: u64)
    requires
        started <= sooner <= later,
    ensures
        elapsed_micros(started, sooner) <= elapsed_micros(started, later),
{
}

/// A time that 32 bits can tell is told to within one microsecond.
pub proof fn elapsed_is_exact_to_a_microsecond(started: u64, now: u64)
    requires
        started <= now,
        micros_in(now - started) <= u32::MAX,
    ensures
        elapsed_micros(started, now) * TICKS_PER_SECOND <= (now - started) * 1_000_000
            < (elapsed_micros(started, now) + 1) * TICKS_PER_SECOND,
{
}

/// The told time is the largest whole number of microseconds that has passed, at 32768 ticks to the
/// second, or the most that 32 bits can tell where that is less.
pub proof fn elapsed_is_the_time_that_has_passed(started: u64, now: u64)
    requires
        started <= now,
    ensures
        elapsed_micros(started, now) * 32_768 <= (now - started) * 1_000_000,
        elapsed_micros(started, now) < 0xFFFF_FFFF ==> (now - started) * 1_000_000 < (
        elapsed_micros(started, now) + 1) * 32_768,
{
}

/// Only how far two times are apart counts.
pub proof fn elapsed_goes_by_the_distance(started: u64, now: u64, other_started: u64, other_now: u64)
    requires
        started <= now,
        other_started <= other_now,
        now - started == other_now - other_started,
    ensures
        elapsed_micros(started, now) == elapsed_micros(other_started, other_now),
        measurable(started, now) == measurable(other_started, other_now),
{
}

/// So many milliseconds have passed once, and not before, as many ticks have that 32768 of them make
/// a second.
pub proof fn milliseconds_have_passed(ticks: int, millis: int)
    requires
        0 <= millis,
    ensures
        ticks >= ticks_in(millis) <==> ticks * 1000 >= millis * 32_768,
{
}

/// A time can be told exactly if it does not run backwards and its ticks times 15625 fit 64 bits.
pub proof fn measurable_times_in_full(started: u64, now: u64)
    ensures
        measurable(started, now) <==> started <= now && (now - started) * 15_625
            <= 0xFFFF_FFFF_FFFF_FFFF,
{
}

} // verus!
