//! What holds of the library as a whole.
use crate::batch::{comes_to, ends_run, slot_count, total_growth, BatchModel, SlotRun};
use crate::columns::{batch_columns, batch_rows, batch_schema, Batch};
use crate::error::AggregateError;
use crate::intermediate::{builds, shows, side_by_side, state_columns};
use crate::mode::AggregateMode;
use crate::no_grouping::{
    AggregateExec, AggregateStreamInner, StreamAction, StreamEvent, StreamState,
};
use crate::peek::{IntermediatePeekConfig, PeekContext};
use crate::prefix::up_to;
use arrow::datatypes::Schema;
use datafusion_common::{DataFusionError, ScalarValue};
use vstd::prelude::*;

verus! {

/// Whether every slot went as its filter entry and its expressions ask.
pub open spec fn all_complete<X>(
    slots: Seq<SlotRun>,
    expressions: Seq<Vec<X>>,
    filters: Seq<Option<X>>,
) -> bool {
    forall|i: int|
        0 <= i < slots.len() ==> (#[trigger] slots[i]).is_complete(
            filters[i] is Some,
            expressions[i]@.len(),
        )
}

/// Whether an accumulator was fed the values of all its expressions, and took them.
pub open spec fn took_all(slot: SlotRun, expressions: nat) -> bool {
    &&& slot.columns.len() == expressions
    &&& slot.feeding matches Some(feeding)
    &&& feeding.reply is Ok
}

/// A batch that is aggregated without an error reaches every accumulator: each took the values of
/// all its expressions, and the bytes reported are the sum of what each grew by.
pub proof fn batch_reaches_every_accumulator<X>(
    slots: Seq<SlotRun>,
    count: nat,
    expressions: Seq<Vec<X>>,
    filters: Seq<Option<X>>,
    total: usize,
)
    requires
        all_complete(slots, expressions, filters),
        comes_to(slots, count, Some(Ok(total))),
    ensures
        slots.len() == count,
        forall|i: int| 0 <= i < count ==> took_all(#[trigger] slots[i], expressions[i]@.len()),
        total == total_growth(slots, count),
{
    assert forall|i: int| 0 <= i < count implies took_all(
        #[trigger] slots[i],
        expressions[i]@.len(),
    ) by {
        assert(slots[i].is_complete(filters[i] is Some, expressions[i]@.len()));
        if i == count - 1 {
            assert(slots[i] == slots.last());
        }
        assert(slots[i].error() is None);
    }
}

/// A batch that fails keeps what came before: every accumulator before the one that failed took the
/// values of all its expressions, and none after it was reached.
pub proof fn failed_batch_stops_at_the_first_error<X>(
    slots: Seq<SlotRun>,
    count: nat,
    expressions: Seq<Vec<X>>,
    filters: Seq<Option<X>>,
    error: AggregateError,
)
    requires
        all_complete(slots, expressions, filters),
        comes_to(slots, count, Some(Err(error))),
    ensures
        0 < slots.len() <= count,
        slots.last().error() is Some,
        error == AggregateError::DataFusion(slots.last().error()->0),
        forall|i: int|
            0 <= i < slots.len() - 1 ==> took_all(#[trigger] slots[i], expressions[i]@.len()),
{
    assert forall|i: int| 0 <= i < slots.len() - 1 implies took_all(
        #[trigger] slots[i],
        expressions[i]@.len(),
    ) by {
        assert(slots[i].is_complete(filters[i] is Some, expressions[i]@.len()));
        assert(slots[i].error() is None);
    }
}

/// What a batch comes to is determined by how its slots went.
pub proof fn batch_result_is_determined(
    slots: Seq<SlotRun>,
    count: nat,
    one: Option<Result<usize, AggregateError>>,
    other: Option<Result<usize, AggregateError>>,
)
    requires
        comes_to(slots, count, one),
        comes_to(slots, count, other),
    ensures
        one == other,
{
}

/// Where partial states come in nothing is filtered: a stream that was made for such a mode
/// evaluates its expressions on every batch as it came, whatever filters the aggregation has.
pub proof fn merging_streams_do_not_filter<A, X, F>(
    stream: AggregateStreamInner<A, X, F>,
    agg: AggregateExec<X, F>,
    aggregate_expressions: Vec<Vec<X>>,
    accumulators: Vec<A>,
    slots: Seq<SlotRun>,
    batch: Batch,
)
    requires
        stream.is_new(agg, aggregate_expressions, accumulators),
        agg.mode.spec_merges(),
        slots.len() <= stream.filter_expressions@.len(),
        all_complete(slots, stream.aggregate_expressions@, stream.filter_expressions@),
    ensures
        forall|i: int|
            0 <= i < slots.len() ==> (#[trigger] slots[i]).filter is None && slots[i].current(batch)
                == batch,
{
    assert forall|i: int| 0 <= i < slots.len() implies (#[trigger] slots[i]).filter is None by {
        assert(slots[i].is_complete(
            stream.filter_expressions@[i] is Some,
            stream.aggregate_expressions@[i]@.len(),
        ));
    }
}

/// A course that a stream may take: what happened to it, what it did each time, and the states it
/// was in before and after.
pub struct StreamTrace {
    /// The events, in order.
    pub events: Seq<StreamEvent>,
    /// What the stream did at each event.
    pub actions: Seq<StreamAction>,
    /// The state before each event, and the state after the last.
    pub states: Seq<StreamState>,
}

/// Whether `event` is what comes next once `action` was carried out.
pub open spec fn follows(action: StreamAction, event: StreamEvent) -> bool {
    match action {
        StreamAction::End | StreamAction::Emit(_) => event is Polled,
        StreamAction::ReadInput => event is Input,
        StreamAction::Aggregate(_) => event is Aggregated,
        StreamAction::Peek => event is Peeked,
        StreamAction::Finalize => event is Finalized,
    }
}

impl StreamTrace {
    /// A course of a new stream: the consumer polls it, its decisions are its own, and what it
    /// asks for is done.
    pub open spec fn valid(self, schema: Schema) -> bool {
        &&& self.actions.len() == self.events.len()
        &&& self.states.len() == self.events.len() + 1
        &&& self.states[0] == (StreamState { finished: false, reserved: 0 })
        &&& self.events.len() > 0 ==> self.events[0] is Polled
        &&& forall|i: int|
            0 <= i < self.events.len() ==> (#[trigger] self.states[i]).steps(
                schema,
                self.events[i],
                self.actions[i],
                self.states[i + 1],
            )
        &&& forall|i: int|
            0 < i < self.events.len() ==> follows(self.actions[i - 1], #[trigger] self.events[i])
    }

    /// Whether an item was handed on among the first `n` actions.
    pub open spec fn emitted(self, n: int) -> bool {
        exists|i: int| 0 <= i < n && (#[trigger] self.actions[i]) is Emit
    }

    /// The bytes that the memory pool has granted in the first `n` steps.
    pub open spec fn granted(self, n: nat) -> nat
        decreases n,
    {
        if n == 0 {
            0
        } else {
            self.granted((n - 1) as nat) + (match self.events[n - 1] {
                StreamEvent::Aggregated(Ok(bytes)) => if self.actions[n - 1] is Peek {
                    bytes as nat
                } else {
                    0
                },
                _ => 0,
            })
        }
    }
}

/// How the first `n` steps of a course relate to the state after them.
pub(crate) proof fn lemma_course(trace: StreamTrace, schema: Schema, n: int)
    requires
        trace.valid(schema),
        0 <= n <= trace.events.len(),
    ensures
        forall|i: int, j: int|
            #![trigger trace.actions[i], trace.actions[j]]
            0 <= i < j < n && trace.actions[i] is Emit ==> trace.actions[j] is End,
        forall|j: int| 0 <= j < n && (#[trigger] trace.actions[j]) is End ==> trace.emitted(j),
        n == 0 ==> !trace.states[n].finished,
        n > 0 ==> match trace.actions[n - 1] {
            StreamAction::End | StreamAction::Emit(_) => {
                &&& trace.states[n].finished
                &&& trace.emitted(n)
            },
            StreamAction::Finalize => trace.states[n].finished && !trace.emitted(n),
            _ => !trace.states[n].finished && !trace.emitted(n),
        },
    decreases n,
{
    if n > 0 {
        lemma_course(trace, schema, n - 1);
        let before = trace.states[n - 1];
        assert(before.steps(schema, trace.events[n - 1], trace.actions[n - 1], trace.states[n]));
        if n > 1 {
            assert(follows(trace.actions[n - 2], trace.events[n - 1]));
        }
        let last = trace.actions[n - 1];
        if last is Emit {
            assert(trace.emitted(n));
        }
        if trace.emitted(n - 1) {
            let i = choose|i: int| 0 <= i < n - 1 && (#[trigger] trace.actions[i]) is Emit;
            assert(trace.actions[i] is Emit);
            assert(trace.emitted(n));
        }
    }
}

/// A stream hands on exactly one item and then ends for good: no second item follows the first,
/// after it the consumer is told each time that there are no more, and it is told so only after
/// the item.
pub proof fn stream_gives_one_item(trace: StreamTrace, schema: Schema)
    requires
        trace.valid(schema),
    ensures
        forall|i: int, j: int|
            #![trigger trace.actions[i], trace.actions[j]]
            0 <= i < j < trace.actions.len() && trace.actions[i] is Emit ==> trace.actions[j] is End,
        forall|j: int|
            0 <= j < trace.actions.len() && (#[trigger] trace.actions[j]) is End ==> trace.emitted(
                j,
            ),
{
    lemma_course(trace, schema, trace.events.len() as int);
}

/// The stream's reservation holds exactly the bytes that the memory pool has granted it for the
/// growth of its accumulators.
pub proof fn reservation_holds_what_was_granted(trace: StreamTrace, schema: Schema, n: nat)
    requires
        trace.valid(schema),
        n <= trace.events.len(),
    ensures
        trace.states[n as int].reserved == trace.granted(n),
    decreases n,
{
    if n > 0 {
        reservation_holds_what_was_granted(trace, schema, (n - 1) as nat);
        assert(trace.states[n - 1].steps(
            schema,
            trace.events[n - 1],
            trace.actions[n - 1],
            trace.states[n as int],
        ));
    }
}

/// The place at which the columns of the `i`-th state begin.
pub open spec fn column_offset(
    states: Seq<Result<Vec<ScalarValue>, DataFusionError>>,
    i: nat,
) -> nat {
    side_by_side(states, i).len()
}

/// The batch of intermediate results, under the schema of the results, shows the state of every
/// accumulator, whole and in order.
pub proof fn intermediate_batch_shows_every_state(
    states: Seq<Result<Vec<ScalarValue>, DataFusionError>>,
    accumulators: nat,
    schema: Schema,
    batch: Batch,
)
    requires
        shows(states, accumulators, schema, Ok(batch)),
    ensures
        states.len() == accumulators,
        batch_schema(batch) == schema,
        batch_columns(batch).len() == column_offset(states, accumulators),
        forall|i: int|
            0 <= i < accumulators ==> {
                &&& state_columns(#[trigger] states[i]) is Ok
                &&& column_offset(states, i as nat) <= column_offset(states, (i + 1) as nat)
                &&& column_offset(states, (i + 1) as nat) <= batch_columns(batch).len()
                &&& batch_columns(batch).subrange(
                    column_offset(states, i as nat) as int,
                    column_offset(states, (i + 1) as nat) as int,
                ) == state_columns(states[i])->Ok_0
            },
{
    assert forall|i: int| 0 <= i < accumulators implies {
        &&& state_columns(#[trigger] states[i]) is Ok
        &&& column_offset(states, i as nat) <= column_offset(states, (i + 1) as nat)
        &&& column_offset(states, (i + 1) as nat) <= batch_columns(batch).len()
        &&& batch_columns(batch).subrange(
            column_offset(states, i as nat) as int,
            column_offset(states, (i + 1) as nat) as int,
        ) == state_columns(states[i])->Ok_0
    } by {
        lemma_side_by_side_grows(states, (i + 1) as nat, accumulators);
        let shown = state_columns(states[i])->Ok_0;
        assert(side_by_side(states, (i + 1) as nat) == side_by_side(states, i as nat) + shown);
        let start = column_offset(states, i as nat) as int;
        let end = column_offset(states, (i + 1) as nat) as int;
        assert(batch_columns(batch).subrange(start, end) =~= batch_columns(batch).take(
            end,
        ).subrange(start, end));
        assert(batch_columns(batch).subrange(start, end) =~= shown);
    }
}

/// The columns of the first `n` states stand first among those of more states.
proof fn lemma_side_by_side_grows(
    states: Seq<Result<Vec<ScalarValue>, DataFusionError>>,
    n: nat,
    more: nat,
)
    requires
        n <= more,
    ensures
        side_by_side(states, n).len() <= side_by_side(states, more).len(),
        side_by_side(states, more).take(side_by_side(states, n).len() as int) == side_by_side(
            states,
            n,
        ),
    decreases more - n,
{
    if n < more {
        lemma_side_by_side_grows(states, n, (more - 1) as nat);
    }
}

/// A look at the intermediate results does not affect what the stream does: afterwards it has the
/// same answers to every event.
pub proof fn peeking_leaves_the_decisions_alone<A, X, F>(
    before: AggregateStreamInner<A, X, F>,
    after: AggregateStreamInner<A, X, F>,
)
    requires
        after.same_but_looked_at(before),
    ensures
        forall|event: StreamEvent, action: StreamAction, end: StreamState|
            after.state().steps(*after.schema, event, action, end) <==> before.state().steps(
                *before.schema,
                event,
                action,
                end,
            ),
{
}

/// Looks are at least the configured interval apart: between any two of them at least that many
/// milliseconds have passed, whatever happened to the stream in between. `before[i]` is the stream
/// when it is asked for the `i`-th time whether to look, at `times[i]`, and `after[i]` is the
/// stream then.
pub proof fn peeks_keep_their_distance<A, X, F>(
    config: IntermediatePeekConfig<F>,
    times: Seq<u128>,
    before: Seq<AggregateStreamInner<A, X, F>>,
    after: Seq<AggregateStreamInner<A, X, F>>,
    first: int,
    second: int,
)
    requires
        times.len() == before.len(),
        forall|i: int|
            0 <= i < before.len() ==> {
                &&& (#[trigger] before[i]).peek_config == Some(config)
                &&& after[i].last_peek_time == before[i].last_peek_at(times[i])
            },
        forall|i: int|
            0 < i < before.len() ==> (#[trigger] before[i]).last_peek_time == after[i
                - 1].last_peek_time,
        0 <= first < second < before.len(),
        before[first].peeks_at(times[first]),
        before[second].peeks_at(times[second]),
        config.peek_interval_ms > 0,
    ensures
        times[second] - times[first] >= config.peek_interval_ms * 1_000_000,
{
    lemma_last_peek(config, times, before, after, first, second);
}

/// The last look before the `n`-th question was not before an earlier one.
proof fn lemma_last_peek<A, X, F>(
    config: IntermediatePeekConfig<F>,
    times: Seq<u128>,
    before: Seq<AggregateStreamInner<A, X, F>>,
    after: Seq<AggregateStreamInner<A, X, F>>,
    first: int,
    n: int,
)
    requires
        times.len() == before.len(),
        forall|i: int|
            0 <= i < before.len() ==> {
                &&& (#[trigger] before[i]).peek_config == Some(config)
                &&& after[i].last_peek_time == before[i].last_peek_at(times[i])
            },
        forall|i: int|
            0 < i < before.len() ==> (#[trigger] before[i]).last_peek_time == after[i
                - 1].last_peek_time,
        0 <= first < n < before.len(),
        before[first].peeks_at(times[first]),
        config.peek_interval_ms > 0,
    ensures
        before[n].last_peek_time is Some,
        before[n].last_peek_time->0 >= times[first],
    decreases n,
{
    assert(before[n].last_peek_time == after[n - 1].last_peek_time);
    assert(after[n - 1].last_peek_time == before[n - 1].last_peek_at(times[n - 1]));
    if first < n - 1 {
        lemma_last_peek(config, times, before, after, first, n - 1);
    }
}

/// Whether two batches have the same schema, the same columns and as many rows.
pub open spec fn same_batch(one: Batch, other: Batch) -> bool {
    &&& batch_schema(one) == batch_schema(other)
    &&& batch_columns(one) == batch_columns(other)
    &&& batch_rows(one) == batch_rows(other)
}

/// Whether two results are the same: the same batch, or the same error. Of two errors of arrow
/// what they say is not looked at.
pub open spec fn same_result(
    one: Result<Batch, AggregateError>,
    other: Result<Batch, AggregateError>,
) -> bool {
    match (one, other) {
        (Ok(a), Ok(b)) => same_batch(a, b),
        (Err(AggregateError::Internal(a)), Err(AggregateError::Internal(b))) => a@ == b@,
        (Err(AggregateError::DataFusion(a)), Err(AggregateError::DataFusion(b))) => a == b,
        (Err(AggregateError::Arrow(_)), Err(AggregateError::Arrow(_))) => true,
        _ => false,
    }
}

/// Whether two callbacks are given the same, or neither is given anything.
pub open spec fn same_context(one: Option<PeekContext>, other: Option<PeekContext>) -> bool {
    match (one, other) {
        (Some(a), Some(b)) => a.mode == b.mode && same_batch(
            a.intermediate_batch,
            b.intermediate_batch,
        ),
        (None, None) => true,
        _ => false,
    }
}

/// The same accumulators under the same schema and in the same mode give the same batch of
/// intermediate results, and are left alike.
pub proof fn intermediate_batch_is_determined<A>(
    mode: AggregateMode,
    accumulators: Seq<A>,
    schema: Schema,
    answer: spec_fn(A) -> (Result<Vec<ScalarValue>, DataFusionError>, A),
    one: Result<Batch, AggregateError>,
    after_one: Seq<A>,
    other: Result<Batch, AggregateError>,
    after_other: Seq<A>,
)
    requires
        builds(mode, accumulators, schema, answer, one, after_one),
        builds(mode, accumulators, schema, answer, other, after_other),
    ensures
        same_result(one, other),
        after_one == after_other,
{
}

/// Among the modes whose intermediate results can be shown, the mode has no influence on what is
/// shown, nor on what becomes of the accumulators.
pub proof fn shown_modes_show_the_same<A>(
    one_mode: AggregateMode,
    other_mode: AggregateMode,
    accumulators: Seq<A>,
    schema: Schema,
    answer: spec_fn(A) -> (Result<Vec<ScalarValue>, DataFusionError>, A),
    one: Result<Batch, AggregateError>,
    after_one: Seq<A>,
    other: Result<Batch, AggregateError>,
    after_other: Seq<A>,
)
    requires
        one_mode.spec_peekable(),
        other_mode.spec_peekable(),
        builds(one_mode, accumulators, schema, answer, one, after_one),
        builds(other_mode, accumulators, schema, answer, other, after_other),
    ensures
        same_result(one, other),
        after_one == after_other,
{
}

/// Where asking for its state leaves an accumulator as it was, a second batch of intermediate
/// results is the same as the first, and both leave all accumulators as they were.
pub proof fn second_batch_shows_the_same<A>(
    mode: AggregateMode,
    accumulators: Seq<A>,
    schema: Schema,
    answer: spec_fn(A) -> (Result<Vec<ScalarValue>, DataFusionError>, A),
    first: Result<Batch, AggregateError>,
    between: Seq<A>,
    second: Result<Batch, AggregateError>,
    after: Seq<A>,
)
    requires
        forall|accumulator: A| (#[trigger] answer(accumulator)).1 == accumulator,
        builds(mode, accumulators, schema, answer, first, between),
        builds(mode, between, schema, answer, second, after),
    ensures
        same_result(first, second),
        between == accumulators,
        after == accumulators,
{
    assert(between =~= accumulators);
    assert(after =~= accumulators);
}

/// The mode decides no more about a batch than whether accumulators are updated or merged: two
/// modes that agree on that give the same result and leave the accumulators alike.
pub proof fn mode_decides_between_update_and_merge<A, X>(
    model: BatchModel<A, X>,
    one_mode: AggregateMode,
    other_mode: AggregateMode,
    batch: Batch,
    accumulators: Seq<A>,
    expressions: Seq<Vec<X>>,
    filters: Seq<Option<X>>,
    one: Option<Result<usize, AggregateError>>,
    after_one: Seq<A>,
    other: Option<Result<usize, AggregateError>>,
    after_other: Seq<A>,
)
    requires
        one_mode.spec_merges() == other_mode.spec_merges(),
        model.aggregates(
            one_mode,
            batch,
            accumulators,
            expressions,
            filters,
            one,
            after_one,
        ),
        model.aggregates(
            other_mode,
            batch,
            accumulators,
            expressions,
            filters,
            other,
            after_other,
        ),
    ensures
        one == other,
        after_one == after_other,
{
    let merges = one_mode.spec_merges();
    batch_result_is_determined(
        model.slots(merges, batch, accumulators, expressions, filters),
        slot_count(accumulators.len(), expressions.len(), filters.len()),
        one,
        other,
    );
}

/// Whether two streams are the same but for the number of groups that a look takes in.
pub open spec fn same_but_for_group_limit<A, X, F>(
    one: AggregateStreamInner<A, X, F>,
    other: AggregateStreamInner<A, X, F>,
) -> bool {
    &&& one.schema == other.schema
    &&& one.mode == other.mode
    &&& one.aggregate_expressions == other.aggregate_expressions
    &&& one.filter_expressions == other.filter_expressions
    &&& one.accumulators == other.accumulators
    &&& one.reservation == other.reservation
    &&& one.finished == other.finished
    &&& one.last_peek_time == other.last_peek_time
    &&& one.started == other.started
    &&& match (one.peek_config, other.peek_config) {
        (Some(a), Some(b)) => {
            &&& a.peek_interval_ms == b.peek_interval_ms
            &&& a.callback == b.callback
        },
        (None, None) => true,
        _ => false,
    }
}

/// The group limit has no influence on an aggregation without grouping: streams that are the same
/// but for it look at the same moments, show the same states, give the callback the same, and are
/// left alike.
pub proof fn group_limit_has_no_influence<A, X, F>(
    one: AggregateStreamInner<A, X, F>,
    other: AggregateStreamInner<A, X, F>,
    now: u128,
)
    requires
        same_but_for_group_limit(one, other),
    ensures
        one.peeks_at(now) == other.peeks_at(now),
        one.last_peek_at(now) == other.last_peek_at(now),
        forall|made: Result<Batch, AggregateError>| #[trigger]
            one.context_of(made) == other.context_of(made),
        forall|
            states: Seq<Result<Vec<ScalarValue>, DataFusionError>>,
            made: Result<Batch, AggregateError>,
        |
            shows(states, one.accumulators@.len(), *one.schema, made) == #[trigger] shows(
                states,
                other.accumulators@.len(),
                *other.schema,
                made,
            ),
        forall|
            answer: spec_fn(A) -> (Result<Vec<ScalarValue>, DataFusionError>, A),
            context: Option<PeekContext>,
            after: Seq<A>,
            other_context: Option<PeekContext>,
            other_after: Seq<A>,
        |
            #[trigger] one.looks(now, answer, context, after) && #[trigger] other.looks(
                now,
                answer,
                other_context,
                other_after,
            ) ==> same_context(context, other_context) && after == other_after,
{
    assert forall|
        answer: spec_fn(A) -> (Result<Vec<ScalarValue>, DataFusionError>, A),
        context: Option<PeekContext>,
        after: Seq<A>,
        other_context: Option<PeekContext>,
        other_after: Seq<A>,
    |
        #[trigger] one.looks(now, answer, context, after) && #[trigger] other.looks(
            now,
            answer,
            other_context,
            other_after,
        ) implies same_context(context, other_context) && after == other_after by {
        if one.peeks_at(now) {
            let made = choose|made: Result<Batch, AggregateError>|
                {
                    &&& #[trigger] builds(
                        one.mode,
                        one.accumulators@,
                        *one.schema,
                        answer,
                        made,
                        after,
                    )
                    &&& context == one.context_of(made)
                };
            let other_made = choose|made: Result<Batch, AggregateError>|
                {
                    &&& #[trigger] builds(
                        other.mode,
                        other.accumulators@,
                        *other.schema,
                        answer,
                        made,
                        other_after,
                    )
                    &&& other_context == other.context_of(made)
                };
            intermediate_batch_is_determined(
                one.mode,
                one.accumulators@,
                *one.schema,
                answer,
                made,
                after,
                other_made,
                other_after,
            );
        }
    }
}

/// Whether one filter entry is as good as the other on a batch: they are the same, or the first is
/// none and the second keeps every row.
pub open spec fn filters_alike<A, X>(
    model: BatchModel<A, X>,
    batch: Batch,
    one: Option<X>,
    other: Option<X>,
) -> bool {
    ||| one == other
    ||| {
        &&& one is None
        &&& other matches Some(predicate)
        &&& (model.filter)(batch, predicate) == Ok::<_, DataFusionError>(batch)
    }
}

/// A filter that keeps every row is the same as no filter: the batch comes to the same result, and
/// the accumulators are left alike.
pub proof fn filter_that_keeps_all_is_no_filter<A, X>(
    model: BatchModel<A, X>,
    mode: AggregateMode,
    batch: Batch,
    accumulators: Seq<A>,
    expressions: Seq<Vec<X>>,
    filters: Seq<Option<X>>,
    other_filters: Seq<Option<X>>,
    one: Option<Result<usize, AggregateError>>,
    after_one: Seq<A>,
    other: Option<Result<usize, AggregateError>>,
    after_other: Seq<A>,
)
    requires
        filters.len() == other_filters.len(),
        forall|i: int|
            0 <= i < filters.len() ==> filters_alike(
                model,
                batch,
                #[trigger] filters[i],
                other_filters[i],
            ),
        model.aggregates(mode, batch, accumulators, expressions, filters, one, after_one),
        model.aggregates(
            mode,
            batch,
            accumulators,
            expressions,
            other_filters,
            other,
            after_other,
        ),
    ensures
        one == other,
        after_one == after_other,
{
    let merges = mode.spec_merges();
    let count = slot_count(accumulators.len(), expressions.len(), filters.len());
    lemma_slots_alike(
        model,
        merges,
        batch,
        accumulators,
        expressions,
        filters,
        other_filters,
        count,
    );
    let slots = model.slots(merges, batch, accumulators, expressions, filters);
    let other_slots = model.slots(merges, batch, accumulators, expressions, other_filters);
    assert forall|i: int| 0 <= i < slots.len() implies #[trigger] total_growth(
        slots,
        i as nat,
    ) <= usize::MAX by {
        lemma_growth_alike(slots, other_slots, i as nat);
        assert(total_growth(other_slots, i as nat) <= usize::MAX);
    }
    lemma_growth_alike(slots, other_slots, slots.len());
    assert(comes_to(slots, count, other));
    batch_result_is_determined(slots, count, one, other);
    assert forall|i: int| 0 <= i < accumulators.len() implies after_one[i] == after_other[i] by {
        if i < slots.len() {
            assert(filters_alike(model, batch, filters[i], other_filters[i]));
        }
    }
    assert(after_one =~= after_other);
}

/// Slots whose filters are alike end alike, and their accumulators grow alike.
proof fn lemma_slots_alike<A, X>(
    model: BatchModel<A, X>,
    merges: bool,
    batch: Batch,
    accumulators: Seq<A>,
    expressions: Seq<Vec<X>>,
    filters: Seq<Option<X>>,
    other_filters: Seq<Option<X>>,
    n: nat,
)
    requires
        n <= slot_count(accumulators.len(), expressions.len(), filters.len()),
        filters.len() == other_filters.len(),
        forall|i: int|
            0 <= i < filters.len() ==> filters_alike(
                model,
                batch,
                #[trigger] filters[i],
                other_filters[i],
            ),
    ensures
        slots_alike(
            up_to(
                |i: int|
                    model.slot(merges, batch, expressions[i]@, filters[i], accumulators[i]).0,
                |slots: Seq<SlotRun>| ends_run(slots),
                n,
            ),
            up_to(
                |i: int|
                    model.slot(
                        merges,
                        batch,
                        expressions[i]@,
                        other_filters[i],
                        accumulators[i],
                    ).0,
                |slots: Seq<SlotRun>| ends_run(slots),
                n,
            ),
            n,
        ),
    decreases n,
{
    if n > 0 {
        let before = (n - 1) as nat;
        lemma_slots_alike(
            model,
            merges,
            batch,
            accumulators,
            expressions,
            filters,
            other_filters,
            before,
        );
        let one = up_to(
            |i: int| model.slot(merges, batch, expressions[i]@, filters[i], accumulators[i]).0,
            |slots: Seq<SlotRun>| ends_run(slots),
            before,
        );
        let other = up_to(
            |i: int|
                model.slot(merges, batch, expressions[i]@, other_filters[i], accumulators[i]).0,
            |slots: Seq<SlotRun>| ends_run(slots),
            before,
        );
        lemma_growth_alike(one, other, one.len());
        if one.len() > 0 {
            assert(one.last().error() == other.last().error());
        }
        assert(filters_alike(model, batch, filters[n - 1], other_filters[n - 1]));
    }
}

/// Whether slots, at most `n` of them, end alike and their accumulators grow alike.
pub open spec fn slots_alike(one: Seq<SlotRun>, other: Seq<SlotRun>, n: nat) -> bool {
    &&& one.len() == other.len()
    &&& one.len() <= n
    &&& forall|i: int|
        #![trigger one[i]]
        #![trigger other[i]]
        0 <= i < one.len() ==> one[i].error() == other[i].error() && one[i].grown()
            == other[i].grown()
}

proof fn lemma_growth_alike(one: Seq<SlotRun>, other: Seq<SlotRun>, n: nat)
    requires
        one.len() == other.len(),
        n <= one.len(),
        forall|i: int|
            #![trigger one[i]]
            #![trigger other[i]]
            0 <= i < one.len() ==> one[i].error() == other[i].error() && one[i].grown()
                == other[i].grown(),
    ensures
        total_growth(one, n) == total_growth(other, n),
    decreases n,
{
    if n > 0 {
        lemma_growth_alike(one, other, (n - 1) as nat);
        assert(one[n - 1].grown() == other[n - 1].grown());
    }
}

} // verus!
