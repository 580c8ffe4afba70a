//! The clock by which looks at intermediate results are spaced.
use std::time::Instant;
use vstd::prelude::*;

verus! {

/// Declares `std::time::Instant`, which Verus carries without looking inside.
#[verifier::external_type_specification]
#[verifier::external_body]
pub struct ExInstant(Instant);

/// Calls `std::time::Instant::now`. Nothing is claimed of the moment that it returns.
#[verifier::external_body]
pub(crate) fn now() -> Instant {
    Instant::now()
}

/// Calls `std::time::Instant::elapsed` and gives the time since `start` in nanoseconds. Nothing
/// is claimed of the reading, which rests on when it is taken.
#[verifier::external_body]
pub(crate) fn nanos_since(start: &Instant) -> u128 {
    start.elapsed().as_nanos()
}

/// Whether `now` is what [`nanos_since`] may give for `start`: a reading of the clock, in
/// nanoseconds since that moment.
pub closed spec fn is_reading(start: Instant, now: u128) -> bool {
    call_ensures(nanos_since, (&start,), now)
}

/// A reading is what [`nanos_since`] gives, and not made of it in some other way.
pub(crate) proof fn readings_are_taken_from_the_clock(start: Instant, now: u128)
    ensures
        is_reading(start, now) == call_ensures(nanos_since, (&start,), now),
{
}

/// What a clock gives for `start`.
fn read<C>(clock: &C, start: &Instant) -> (now: u128) where C: Fn(&Instant) -> u128
    requires
        call_requires(*clock, (start,)),
    ensures
        call_ensures(*clock, (start,), now),
{
    clock(start)
}

/// Reads the clock: the time since `start`, in nanoseconds.
pub(crate) fn reading(start: &Instant) -> (now: u128)
    ensures
        is_reading(*start, now),
{
    read(&nanos_since, start)
}

/// The whole milliseconds from `earlier` to `later`, two readings in nanoseconds: none where
/// `later` precedes `earlier`, and only the low 64 bits of the count.
pub open spec fn spec_elapsed_ms(earlier: u128, later: u128) -> int {
    if later >= earlier {
        (((later - earlier) as int) / 1_000_000) % 0x1_0000_0000_0000_0000
    } else {
        0
    }
}

/// The whole milliseconds from `earlier` to `later`, two readings in nanoseconds.
pub fn elapsed_ms(earlier: u128, later: u128) -> (ms: u64)
    ensures
        ms == spec_elapsed_ms(earlier, later),
{
    if later >= earlier {
        let ms: u128 = (later - earlier) / 1_000_000;
        (ms % 0x1_0000_0000_0000_0000) as u64
    } else {
        0
    }
}

} // verus!
