//! The account of the memory that an aggregation holds.
use datafusion_common::DataFusionError;
use datafusion_execution::memory_pool::{MemoryConsumer, MemoryReservation};
use datafusion_execution::TaskContext;
use vstd::prelude::*;

verus! {

/// Declares `datafusion_execution::TaskContext`, which Verus carries without looking inside.
#[verifier::external_type_specification]
#[verifier::external_body]
pub struct ExTaskContext(TaskContext);

/// Declares `datafusion_execution::memory_pool::MemoryReservation`, of which Verus sees what
/// [`reserved_bytes`] and [`reserved_for`] name.
#[verifier::external_type_specification]
#[verifier::external_body]
pub struct ExMemoryReservation(MemoryReservation);

/// The number of bytes that a reservation holds.
pub uninterp spec fn reserved_bytes(reservation: MemoryReservation) -> nat;

/// The name of the consumer that a reservation was registered for.
pub uninterp spec fn reserved_for(reservation: MemoryReservation) -> Seq<char>;

/// Calls `MemoryConsumer::new` and `MemoryConsumer::register` with the pool that
/// `TaskContext::memory_pool` gives: the new reservation is empty and carries the consumer's
/// name. That the pool is told of the consumer has no part in what Verus sees.
#[verifier::external_body]
pub(crate) fn register(name: String, context: &TaskContext) -> (reservation: MemoryReservation)
    ensures
        reserved_bytes(reservation) == 0,
        reserved_for(reservation) == name@,
{
    MemoryConsumer::new(name).register(context.memory_pool())
}

/// Calls `MemoryReservation::size`: the bytes that the reservation holds.
#[verifier::external_body]
pub(crate) fn size(reservation: &MemoryReservation) -> (bytes: usize)
    ensures
        bytes == reserved_bytes(*reservation),
{
    reservation.size()
}

/// Calls `MemoryReservation::try_grow`: where the pool grants the bytes the reservation holds
/// that many more, and where it refuses them the reservation keeps its size. Which of the two
/// happens rests on the pool, and on what else it has granted. The sum has to fit a `usize`,
/// since the reservation adds without a check.
#[verifier::external_body]
pub(crate) fn try_grow(reservation: &mut MemoryReservation, bytes: usize) -> (granted: Result<
    (),
    DataFusionError,
>)
    requires
        reserved_bytes(*old(reservation)) + bytes <= usize::MAX,
    ensures
        reserved_bytes(*final(reservation)) == reserved_bytes(*old(reservation)) + (
        if granted is Ok {
            bytes as int
        } else {
            0
        }),
        reserved_for(*final(reservation)) == reserved_for(*old(reservation)),
{
    reservation.try_grow(bytes)
}

} // verus!
