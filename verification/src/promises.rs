//! What the contracts promise, said of calls, values and fields alone: each law here follows from
//! the contracts and speaks of nothing that they define.
use crate::batch::{comes_to, slot_count, total_growth, BatchCalls, SlotRun};
use crate::calls::Receives;
use crate::clock::{is_reading, spec_elapsed_ms};
use crate::columns::{
    all_plain, batch_columns, batch_rows, batch_schema, column_shape, is_batch_of, scalar_array,
    scalar_columns, scalar_is_plain, scalar_is_primitive, scalar_kind, schema_fields, value_array,
    value_column, value_is_plain, value_scalar, Batch, Column, ScalarKind,
};
use crate::error::AggregateError;
use crate::intermediate::{shows, side_by_side, state_columns, unsupported_mode, was_asked};
use crate::laws::peeks_keep_their_distance;
use crate::memory::{reserved_bytes, reserved_for};
use crate::mode::AggregateMode;
use crate::no_grouping::{
    consumer_name, spec_filter_expressions, AggregateExec, AggregateStreamInner, StreamAction,
    StreamEvent, StreamState,
};
use crate::peek::{peek_due, IntermediatePeekConfig, PeekContext};
use crate::run::{StreamRun, Surroundings};
use crate::text::decimal;
use arrow::datatypes::Schema;
use datafusion_common::{DataFusionError, ScalarValue};
use datafusion_expr::ColumnarValue;
use vstd::prelude::*;

verus! {

/// Partial states are merged in the two final modes and in no other, and every mode but the
/// partial one can be looked at.
pub proof fn modes_are_told_apart(mode: AggregateMode)
    ensures
        mode.spec_merges() <==> mode == AggregateMode::Final || mode
            == AggregateMode::FinalPartitioned,
        mode.spec_peekable() <==> mode != AggregateMode::Partial,
{
}

/// Milliseconds are a million nanoseconds each, of which the started one does not count; a moment
/// before the other counts for none; and the count starts anew where 64 bits do not hold it.
pub proof fn milliseconds_are_counted_whole(earlier: u128, later: u128)
    ensures
        later < earlier ==> spec_elapsed_ms(earlier, later) == 0,
        later >= earlier && later - earlier < 0x1_0000_0000_0000_0000 * 1_000_000 ==> {
            let ms = spec_elapsed_ms(earlier, later);
            ms * 1_000_000 <= later - earlier && later - earlier < (ms + 1) * 1_000_000
        },
        later - earlier >= 0x1_0000_0000_0000_0000 * 1_000_000 ==> spec_elapsed_ms(earlier, later)
            == spec_elapsed_ms(
            (earlier + 0x1_0000_0000_0000_0000 * 1_000_000) as u128,
            later,
        ),
{
    if later >= earlier {
        let count = (later - earlier) / 1_000_000;
        assert(later - earlier == count * 1_000_000 + (later - earlier) % 1_000_000);
        if later - earlier >= 0x1_0000_0000_0000_0000 * 1_000_000 {
            let rest = later - earlier - 0x1_0000_0000_0000_0000 * 1_000_000;
            assert(count == rest / 1_000_000 + 0x1_0000_0000_0000_0000);
        }
    }
}

/// A look is due as soon as the interval has passed since the last one, and not before. The
/// first is always due. (Spans of more than half a billion years are left out.)
pub proof fn look_is_due_when_the_interval_has_passed(interval_ms: u64, last: Option<u128>, now: u128)
    ensures
        last is None ==> peek_due(interval_ms, last, now),
        last matches Some(earlier) ==> {
            &&& now >= earlier && now - earlier < 0x1_0000_0000_0000_0000 * 1_000_000 ==> (peek_due(
                interval_ms,
                last,
                now,
            ) <==> now - earlier >= interval_ms * 1_000_000)
            &&& now < earlier ==> (peek_due(interval_ms, last, now) <==> interval_ms == 0)
        },
{
    if last is Some {
        milliseconds_are_counted_whole(last->0, now);
    }
}

/// A stream looks if and only if looking is configured and the configured interval has passed; then
/// the moment is noted, and otherwise the one before stays.
pub proof fn stream_looks_when_configured_and_due<A, X, F>(
    stream: AggregateStreamInner<A, X, F>,
    now: u128,
)
    ensures
        stream.peek_config is None ==> !stream.peeks_at(now),
        stream.peek_config matches Some(config) ==> {
            &&& stream.last_peek_time is None ==> stream.peeks_at(now)
            &&& stream.last_peek_time matches Some(earlier) ==> {
                &&& now >= earlier && now - earlier < 0x1_0000_0000_0000_0000 * 1_000_000 ==> (
                stream.peeks_at(now) <==> now - earlier >= config.peek_interval_ms * 1_000_000)
                &&& now < earlier ==> (stream.peeks_at(now) <==> config.peek_interval_ms == 0)
            }
        },
        stream.peeks_at(now) ==> stream.last_peek_at(now) == Some(now),
        !stream.peeks_at(now) ==> stream.last_peek_at(now) == stream.last_peek_time,
{
    if stream.peek_config is Some {
        look_is_due_when_the_interval_has_passed(
            stream.peek_config->0.peek_interval_ms,
            stream.last_peek_time,
            now,
        );
    }
}

/// A stream that is looked at by the clock compares two readings of it: it looks as soon as the
/// nanoseconds between them come to the configured milliseconds, and not before, and the reading of
/// each look is the one that the next is held against.
pub proof fn looks_are_timed_by_the_clock<A, X, F>(
    before: AggregateStreamInner<A, X, F>,
    now: u128,
)
    requires
        is_reading(before.started, now),
        before.last_peek_time matches Some(earlier) ==> is_reading(before.started, earlier),
    ensures
        before.last_peek_at(now) matches Some(last) ==> is_reading(before.started, last),
        before.peek_config matches Some(config) ==> match before.last_peek_time {
            Some(earlier) => earlier <= now && now - earlier < 0x1_0000_0000_0000_0000 * 1_000_000
                ==> before.last_peek_at(now) == (if now - earlier >= config.peek_interval_ms
                * 1_000_000 {
                Some(now)
            } else {
                Some(earlier)
            }),
            None => before.last_peek_at(now) == Some(now),
        },
{
    stream_looks_when_configured_and_due(before, now);
}

/// The number that a text of decimal digits stands for.
pub open spec fn number(text: Seq<char>) -> int
    decreases text.len(),
{
    if text.len() == 0 {
        0
    } else {
        10 * number(text.drop_last()) + (text.last() as int - '0' as int)
    }
}

/// A number in decimal reads back: it consists of digits, begins with a zero only where it is one,
/// and stands for the number.
pub proof fn decimal_reads_back(n: nat)
    ensures
        number(decimal(n)) == n,
        decimal(n).len() > 0,
        n > 0 ==> decimal(n)[0] != '0',
        n == 0 ==> decimal(n).len() == 1,
        forall|i: int| 0 <= i < decimal(n).len() ==> '0' <= #[trigger] decimal(n)[i] <= '9',
    decreases n,
{
    reveal_with_fuel(number, 2);
    if n < 10 {
        assert(decimal(n).drop_last() =~= Seq::empty());
    } else {
        decimal_reads_back(n / 10);
        assert(decimal(n).drop_last() =~= decimal(n / 10));
    }
}

/// The stream of a partition reserves memory under a name that holds the partition's number, and no
/// two partitions have the same.
pub proof fn consumers_are_named_after_their_partition(one: nat, other: nat)
    ensures
        consumer_name(one) == "AggregateStream["@ + decimal(one) + "]"@,
        consumer_name(one) == consumer_name(other) ==> one == other,
{
    decimal_reads_back(one);
    decimal_reads_back(other);
    let start = "AggregateStream["@;
    let end = "]"@;
    if consumer_name(one) == consumer_name(other) {
        assert(consumer_name(one).len() == start.len() + decimal(one).len() + end.len());
        assert(consumer_name(other).len() == start.len() + decimal(other).len() + end.len());
        assert(decimal(one) =~= consumer_name(one).subrange(
            start.len() as int,
            (start.len() + decimal(one).len()) as int,
        ));
        assert(decimal(other) =~= consumer_name(other).subrange(
            start.len() as int,
            (start.len() + decimal(other).len()) as int,
        ));
    }
}

/// A configuration is written with its interval, its group limit, and a placeholder for the
/// callback.
pub proof fn config_is_written_out<F>(config: IntermediatePeekConfig<F>)
    ensures
        config.max_groups_to_peek matches Some(groups) ==> config.spec_debug_text()
            == "IntermediatePeekConfig { peek_interval_ms: "@ + decimal(
            config.peek_interval_ms as nat,
        ) + ", max_groups_to_peek: "@ + ("Some("@ + decimal(groups as nat) + ")"@)
            + ", callback: \"<function>\" }"@,
        config.max_groups_to_peek is None ==> config.spec_debug_text()
            == "IntermediatePeekConfig { peek_interval_ms: "@ + decimal(
            config.peek_interval_ms as nat,
        ) + ", max_groups_to_peek: "@ + "None"@ + ", callback: \"<function>\" }"@,
{
}

/// Where rows come in each aggregate keeps its filter, and where partial states come in each has
/// none.
pub proof fn filters_apply_to_rows_only<X>(
    mode: AggregateMode,
    filter_expr: Seq<Option<X>>,
    aggr_exprs: nat,
)
    ensures
        mode != AggregateMode::Final && mode != AggregateMode::FinalPartitioned
            ==> spec_filter_expressions(mode, filter_expr, aggr_exprs) == filter_expr,
        mode == AggregateMode::Final || mode == AggregateMode::FinalPartitioned ==> {
            let filters = spec_filter_expressions(mode, filter_expr, aggr_exprs);
            filters.len() == aggr_exprs && forall|i: int|
                0 <= i < aggr_exprs ==> (#[trigger] filters[i]) is None
        },
{
}

/// A new stream has what its aggregation has, has read and reserved nothing, has not looked, and
/// has called nobody.
pub proof fn new_stream_starts_from_the_aggregation<A, X, F>(
    stream: AggregateStreamInner<A, X, F>,
    agg: AggregateExec<X, F>,
    aggregate_expressions: Vec<Vec<X>>,
    accumulators: Vec<A>,
)
    requires
        stream.is_new(agg, aggregate_expressions, accumulators),
    ensures
        stream.schema == agg.schema,
        stream.mode == agg.mode,
        stream.aggregate_expressions == aggregate_expressions,
        stream.accumulators == accumulators,
        stream.peek_config == agg.intermediate_peek_config,
        agg.mode != AggregateMode::Final && agg.mode != AggregateMode::FinalPartitioned
            ==> stream.filter_expressions@ == agg.filter_expr@,
        agg.mode == AggregateMode::Final || agg.mode == AggregateMode::FinalPartitioned ==> {
            &&& stream.filter_expressions@.len() == agg.aggr_exprs
            &&& forall|i: int|
                0 <= i < agg.aggr_exprs ==> (#[trigger] stream.filter_expressions@[i]) is None
        },
        !stream.finished,
        reserved_bytes(stream.reservation) == 0,
        stream.last_peek_time is None,
        stream.calls@ == Seq::<(PeekContext, Result<(), DataFusionError>)>::empty(),
{
    filters_apply_to_rows_only(agg.mode, agg.filter_expr@, agg.aggr_exprs as nat);
    assert(stream.calls@ =~= Seq::empty());
}

/// A decision touches no more of a stream than its reservation, whether it is finished, and the
/// time of the last look; and a look no more than the accumulators, that time, and the calls.
pub proof fn streams_keep_their_parts<A, X, F>(
    before: AggregateStreamInner<A, X, F>,
    after: AggregateStreamInner<A, X, F>,
)
    ensures
        after.same_aggregation(before) ==> {
            &&& after.schema == before.schema
            &&& after.mode == before.mode
            &&& after.aggregate_expressions == before.aggregate_expressions
            &&& after.filter_expressions == before.filter_expressions
            &&& after.accumulators == before.accumulators
            &&& reserved_for(after.reservation) == reserved_for(before.reservation)
            &&& after.peek_config == before.peek_config
            &&& after.started == before.started
            &&& after.calls@ == before.calls@
        },
        after.same_but_looked_at(before) ==> {
            &&& after.schema == before.schema
            &&& after.mode == before.mode
            &&& after.aggregate_expressions == before.aggregate_expressions
            &&& after.filter_expressions == before.filter_expressions
            &&& after.accumulators@.len() == before.accumulators@.len()
            &&& after.reservation == before.reservation
            &&& after.finished == before.finished
            &&& after.peek_config == before.peek_config
            &&& after.started == before.started
        },
        before.state().finished == before.finished,
        before.state().reserved == reserved_bytes(before.reservation),
{
}

/// Every scalar becomes a column of its own: where each comes to one, there are as many columns as
/// scalars, each that of the scalar at its place; otherwise the error is that of the first scalar
/// that comes to none.
pub proof fn every_scalar_becomes_its_column(scalars: Seq<ScalarValue>)
    ensures
        match scalar_columns(scalars) {
            Ok(columns) => {
                &&& columns.len() == scalars.len()
                &&& forall|i: int|
                    #![trigger columns[i]]
                    #![trigger scalars[i]]
                    0 <= i < scalars.len() ==> scalar_array(scalars[i]) == Ok::<_, DataFusionError>(
                        columns[i],
                    )
            },
            Err(e) => exists|i: int|
                {
                    &&& 0 <= i < scalars.len()
                    &&& scalar_array(#[trigger] scalars[i]) == Err::<Column, _>(e)
                    &&& forall|j: int| 0 <= j < i ==> scalar_array(#[trigger] scalars[j]) is Ok
                },
        },
    decreases scalars.len(),
{
    if scalars.len() > 0 {
        every_scalar_becomes_its_column(scalars.drop_last());
        let last = scalars.len() - 1;
        assert(scalars.last() == scalars[last]);
        assert(forall|i: int| 0 <= i < last ==> scalars.drop_last()[i] == #[trigger] scalars[i]);
        match scalar_columns(scalars.drop_last()) {
            Ok(columns) => {
                assert forall|j: int| 0 <= j < last implies scalar_array(
                    #[trigger] scalars[j],
                ) is Ok by {
                    assert(scalars.drop_last()[j] == scalars[j]);
                }
                if scalar_array(scalars.last()) is Err {
                    assert(scalar_array(scalars[last]) is Err);
                }
            },
            Err(e) => {
                let i = choose|i: int|
                    {
                        &&& 0 <= i < last
                        &&& scalar_array(#[trigger] scalars.drop_last()[i]) == Err::<Column, _>(e)
                        &&& forall|j: int|
                            0 <= j < i ==> scalar_array(#[trigger] scalars.drop_last()[j]) is Ok
                    };
                assert(scalar_array(scalars[i]) == Err::<Column, _>(e));
                assert forall|j: int| 0 <= j < i implies scalar_array(
                    #[trigger] scalars[j],
                ) is Ok by {
                    assert(scalar_array(scalars.drop_last()[j]) is Ok);
                }
            },
        }
    }
}

/// Columns make a batch under a schema if and only if there is one for each field and at least one,
/// each of its field's type, all equally long, and without nulls where the field allows none. The
/// batch has that schema, those columns in that order, and their length.
pub proof fn columns_that_fit_make_their_batch(
    schema: Schema,
    columns: Seq<Column>,
    made: Result<Batch, AggregateError>,
)
    requires
        is_batch_of(schema, columns, made),
    ensures
        made is Ok <==> {
            &&& columns.len() == schema_fields(schema).len()
            &&& columns.len() > 0
            &&& forall|i: int|
                #![trigger columns[i]]
                0 <= i < columns.len() ==> {
                    &&& column_shape(columns[i]).data_type == schema_fields(schema)[i].data_type
                    &&& column_shape(columns[i]).rows == column_shape(columns[0]).rows
                    &&& !schema_fields(schema)[i].nullable ==> column_shape(columns[i]).nulls == 0
                }
        },
        made matches Ok(batch) ==> {
            &&& batch_schema(batch) == schema
            &&& batch_columns(batch) == columns
            &&& batch_rows(batch) == column_shape(columns[0]).rows
        },
        made matches Err(e) ==> e is Arrow,
{
}

/// The text of the error for a partial aggregation.
pub proof fn partial_results_are_refused_with_a_reason()
    ensures
        unsupported_mode()
            == "Intermediate peeking is only supported for Final/Single aggregation modes"@,
{
}

/// An accumulator was asked if and only if there is an answer at its place.
pub proof fn answers_come_from_those_asked(
    states: Seq<Result<Vec<ScalarValue>, DataFusionError>>,
    i: int,
)
    ensures
        was_asked(states, i) <==> 0 <= i && i < states.len(),
{
}

/// The columns of the first states are those of all their values, one after the other.
proof fn lemma_side_by_side_is_flat(
    states: Seq<Result<Vec<ScalarValue>, DataFusionError>>,
    n: nat,
)
    requires
        n <= states.len(),
        forall|i: int| 0 <= i < n ==> state_columns(#[trigger] states[i]) is Ok,
    ensures
        ({
            let values = states.take(n as int).map_values(
                |state: Result<Vec<ScalarValue>, DataFusionError>| state->Ok_0@,
            ).flatten();
            let columns = side_by_side(states, n);
            &&& columns.len() == values.len()
            &&& forall|k: int|
                #![trigger columns[k]]
                #![trigger values[k]]
                0 <= k < values.len() ==> scalar_array(values[k]) == Ok::<_, DataFusionError>(
                    columns[k],
                )
        }),
    decreases n,
{
    let held = |state: Result<Vec<ScalarValue>, DataFusionError>| state->Ok_0@;
    if n > 0 {
        let before = (n - 1) as nat;
        lemma_side_by_side_is_flat(states, before);
        let earlier = states.take(before as int).map_values(held);
        let last = states[n - 1];
        assert(state_columns(last) is Ok);
        assert(states.take(n as int).map_values(held) =~= earlier.push(last->Ok_0@));
        earlier.lemma_flatten_push(last->Ok_0@);
        every_scalar_becomes_its_column(last->Ok_0@);
        let values = earlier.flatten() + last->Ok_0@;
        let columns = side_by_side(states, before) + state_columns(last)->Ok_0;
        assert forall|k: int| 0 <= k < values.len() implies scalar_array(values[k]) == Ok::<
            _,
            DataFusionError,
        >(#[trigger] columns[k]) by {
            let start = earlier.flatten().len();
            if k < start {
                assert(values[k] == earlier.flatten()[k]);
                assert(columns[k] == side_by_side(states, before)[k]);
            } else {
                assert(values[k] == last->Ok_0@[k - start]);
                assert(columns[k] == (state_columns(last)->Ok_0)[k - start]);
            }
        }
    }
}

/// Every value of every state becomes a column of the batch of intermediate results: it has as many
/// columns as all states together have values, in their order, each the column of its value.
pub proof fn every_value_of_every_state_is_shown(
    states: Seq<Result<Vec<ScalarValue>, DataFusionError>>,
    accumulators: nat,
    schema: Schema,
    batch: Batch,
)
    requires
        shows(states, accumulators, schema, Ok(batch)),
    ensures
        states.len() == accumulators,
        forall|i: int| 0 <= i < states.len() ==> (#[trigger] states[i]) is Ok,
        batch_schema(batch) == schema,
        ({
            let values = states.map_values(
                |state: Result<Vec<ScalarValue>, DataFusionError>| state->Ok_0@,
            ).flatten();
            &&& batch_columns(batch).len() == values.len()
            &&& forall|k: int|
                0 <= k < values.len() ==> scalar_array(#[trigger] values[k]) == Ok::<
                    _,
                    DataFusionError,
                >(batch_columns(batch)[k])
        }),
{
    assert forall|i: int| 0 <= i < states.len() implies state_columns(#[trigger] states[i]) is Ok by {
        if i == states.len() - 1 {
            assert(states[i] == states.last());
        }
    }
    lemma_side_by_side_is_flat(states, states.len());
    assert(states.take(states.len() as int) =~= states);
    columns_that_fit_make_their_batch(schema, side_by_side(states, states.len()), Ok(batch));
}

/// A batch of intermediate results that is not made has a cause. Either the last accumulator asked
/// gave the error, or the first of its values that comes to no column did, and all before it were
/// well; or all accumulators were, and the columns do not fit the schema.
pub proof fn missing_intermediate_batch_has_a_cause(
    states: Seq<Result<Vec<ScalarValue>, DataFusionError>>,
    accumulators: nat,
    schema: Schema,
    error: AggregateError,
)
    requires
        shows(states, accumulators, schema, Err(error)),
    ensures
        states.len() <= accumulators,
        forall|i: int, k: int|
            0 <= i < states.len() - 1 ==> (#[trigger] states[i]) is Ok && (0 <= k
                < states[i]->Ok_0@.len() ==> scalar_array(#[trigger] states[i]->Ok_0@[k]) is Ok),
        match error {
            AggregateError::DataFusion(e) => {
                &&& states.len() > 0
                &&& {
                    ||| states.last() == Err::<Vec<ScalarValue>, _>(e)
                    ||| states.last() is Ok && exists|k: int|
                        {
                            &&& 0 <= k < states.last()->Ok_0@.len()
                            &&& scalar_array(#[trigger] states.last()->Ok_0@[k]) == Err::<
                                Column,
                                _,
                            >(e)
                            &&& forall|j: int|
                                0 <= j < k ==> scalar_array(
                                    #[trigger] states.last()->Ok_0@[j],
                                ) is Ok
                        }
                }
            },
            AggregateError::Arrow(_) => {
                let values = states.map_values(
                    |state: Result<Vec<ScalarValue>, DataFusionError>| state->Ok_0@,
                ).flatten();
                &&& states.len() == accumulators
                &&& forall|i: int| 0 <= i < states.len() ==> (#[trigger] states[i]) is Ok
                &&& forall|k: int| 0 <= k < values.len() ==> scalar_array(
                    #[trigger] values[k],
                ) is Ok
                &&& !{
                    &&& values.len() == schema_fields(schema).len()
                    &&& values.len() > 0
                    &&& forall|k: int|
                        #![trigger values[k]]
                        0 <= k < values.len() ==> {
                            let shape = column_shape(scalar_array(values[k])->Ok_0);
                            &&& shape.data_type == schema_fields(schema)[k].data_type
                            &&& shape.rows == column_shape(scalar_array(values[0])->Ok_0).rows
                            &&& !schema_fields(schema)[k].nullable ==> shape.nulls == 0
                        }
                }
            },
            AggregateError::Internal(_) => false,
        },
{
    assert forall|i: int, k: int| 0 <= i < states.len() - 1 implies (#[trigger] states[i]) is Ok && (
    0 <= k < states[i]->Ok_0@.len() ==> scalar_array(#[trigger] states[i]->Ok_0@[k]) is Ok) by {
        assert(state_columns(states[i]) is Ok);
        every_scalar_becomes_its_column(states[i]->Ok_0@);
    }
    if states.len() == 0 || state_columns(states.last()) is Ok {
        assert forall|i: int| 0 <= i < states.len() implies state_columns(
            #[trigger] states[i],
        ) is Ok by {
            if i == states.len() - 1 {
                assert(states[i] == states.last());
            }
        }
        lemma_side_by_side_is_flat(states, states.len());
        assert(states.take(states.len() as int) =~= states);
        let values = states.map_values(
            |state: Result<Vec<ScalarValue>, DataFusionError>| state->Ok_0@,
        ).flatten();
        let columns = side_by_side(states, states.len());
        columns_that_fit_make_their_batch(schema, columns, Err(error));
        assert(forall|k: int|
            #![trigger columns[k]]
            #![trigger values[k]]
            0 <= k < values.len() ==> scalar_array(values[k])->Ok_0 == columns[k]);
    } else if states.last() is Ok {
        every_scalar_becomes_its_column(states.last()->Ok_0@);
    }
}

/// What a look hands on is the batch of intermediate results with the mode, and nothing where there
/// is no batch.
pub proof fn looks_hand_on_the_batch<A, X, F>(
    stream: AggregateStreamInner<A, X, F>,
    made: Result<Batch, AggregateError>,
)
    ensures
        made matches Ok(batch) ==> stream.context_of(made) == Some(
            PeekContext { mode: stream.mode, intermediate_batch: batch },
        ),
        made is Err ==> stream.context_of(made) is None,
{
}

/// A callback that can be called answers a look as it answers a call.
pub proof fn callbacks_receive_by_being_called<F>(
    callback: F,
    context: PeekContext,
    answer: Result<(), DataFusionError>,
) where F: Fn(PeekContext) -> Result<(), DataFusionError>
    ensures
        callback.accepts(context) == call_requires(callback, (context,)),
        callback.gives(context, answer) == call_ensures(callback, (context,), answer),
{
}

/// The scalars that can be repeated for certain: numbers, dates, times and spans of time, truth
/// values, nulls, texts that are not too long together, and a nested value in its one row.
pub proof fn plain_scalars_are_these(scalar: ScalarValue, rows: nat)
    ensures
        scalar_is_plain(scalar, rows) <==> rows <= usize::MAX / 128 && {
            ||| scalar_is_primitive(scalar)
            ||| scalar_kind(scalar) is Boolean
            ||| scalar_kind(scalar) == ScalarKind::Bytes(None)
            ||| {
                &&& scalar_kind(scalar) matches ScalarKind::Bytes(Some(bytes))
                &&& bytes.len() * rows <= 0x1fff_ffff
            }
            ||| scalar_kind(scalar) == ScalarKind::Nested(1) && rows == 1
        },
{
}

/// All scalars are plain if each is, and a columnar value is where it holds a column or such a
/// scalar.
pub proof fn plain_values_hold_plain_scalars(
    scalars: Seq<ScalarValue>,
    value: ColumnarValue,
    rows: nat,
)
    ensures
        all_plain(scalars) <==> forall|i: int|
            0 <= i < scalars.len() ==> scalar_is_plain(#[trigger] scalars[i], 1),
        value_scalar(value) is None ==> value_is_plain(value, rows),
        value_scalar(value) matches Some(scalar) ==> (value_is_plain(value, rows)
            <==> scalar_is_plain(scalar, rows)),
{
}

/// The expressions of a slot are evaluated on the rows that its filter left. The filter is given
/// the batch; the expression at place `j` is given the batch that the filter call returned, or the
/// batch itself where the slot has no filter, and its column is what the answer comes to for as
/// many rows as that has.
pub proof fn expressions_see_the_filtered_rows<A, X, Filter, Evaluate, Size, Update, Merge>(
    calls: BatchCalls<Filter, Evaluate, Size, Update, Merge>,
    batch: Batch,
    expressions: Seq<X>,
    filter: Option<X>,
    before: A,
    after: A,
    slot: SlotRun,
    j: int,
) where
    Filter: Fn(&Batch, &X) -> Result<Batch, DataFusionError>,
    Evaluate: Fn(&X, &Batch) -> Result<ColumnarValue, DataFusionError>,
    Size: Fn(&A) -> usize,

    requires
        calls.answered(batch, expressions, filter, before, after, slot),
        0 <= j < slot.columns.len(),
    ensures
        filter is None ==> exists|reply: Result<ColumnarValue, DataFusionError>|
            {
                &&& #[trigger] call_ensures(calls.evaluate, (&expressions[j], &batch), reply)
                &&& match reply {
                    Ok(value) => {
                        &&& slot.columns[j] == value_column(value, batch_rows(batch))
                        &&& value_array(value) is Some ==> slot.columns[j] is Ok && Some(
                            slot.columns[j]->Ok_0,
                        ) == value_array(value)
                        &&& value_array(value) is None && slot.columns[j] is Ok ==> column_shape(
                            slot.columns[j]->Ok_0,
                        ).rows == batch_rows(batch)
                    },
                    Err(e) => slot.columns[j] == Err::<Column, _>(e),
                }
            },
        filter matches Some(predicate) ==> {
            &&& slot.filter is Some
            &&& slot.filter->0 is Ok
            &&& call_ensures(calls.filter, (&batch, &predicate), slot.filter->0)
        },
        filter is Some ==> exists|reply: Result<ColumnarValue, DataFusionError>|
            {
                &&& #[trigger] call_ensures(calls.evaluate, (&expressions[j], &slot.filter->0->Ok_0), reply)
                &&& match reply {
                    Ok(value) => {
                        &&& slot.columns[j] == value_column(value, batch_rows(slot.filter->0->Ok_0))
                        &&& value_array(value) is Some ==> slot.columns[j] is Ok && Some(
                            slot.columns[j]->Ok_0,
                        ) == value_array(value)
                        &&& value_array(value) is None && slot.columns[j] is Ok ==> column_shape(
                            slot.columns[j]->Ok_0,
                        ).rows == batch_rows(slot.filter->0->Ok_0)
                    },
                    Err(e) => slot.columns[j] == Err::<Column, _>(e),
                }
            },
{
    assert(calls.evaluates_to(expressions[j], slot.current(batch), slot.columns[j]));
}

/// An accumulator is fed if and only if its filter, where it has one, and every expression gave a
/// value; then it is measured before and after. The first error is the last that is asked for, and
/// an accumulator that is not fed stays as it was.
pub proof fn accumulators_are_fed_when_all_went_well<A, X, Filter, Evaluate, Size, Update, Merge>(
    calls: BatchCalls<Filter, Evaluate, Size, Update, Merge>,
    batch: Batch,
    expressions: Seq<X>,
    filter: Option<X>,
    before: A,
    after: A,
    slot: SlotRun,
) where
    Filter: Fn(&Batch, &X) -> Result<Batch, DataFusionError>,
    Evaluate: Fn(&X, &Batch) -> Result<ColumnarValue, DataFusionError>,
    Size: Fn(&A) -> usize,

    requires
        calls.answered(batch, expressions, filter, before, after, slot),
    ensures
        slot.filter is Some <==> filter is Some,
        filter matches Some(predicate) ==> call_ensures(
            calls.filter,
            (&batch, &predicate),
            slot.filter->0,
        ),
        slot.filter matches Some(Err(_)) ==> slot.columns.len() == 0 && slot.feeding is None,
        slot.feeding is Some ==> {
            &&& slot.columns.len() == expressions.len()
            &&& forall|j: int| 0 <= j < slot.columns.len() ==> (#[trigger] slot.columns[j]) is Ok
        },
        slot.feeding is None ==> after == before && {
            ||| slot.filter matches Some(Err(_))
            ||| {
                &&& 0 < slot.columns.len() <= expressions.len()
                &&& slot.columns[slot.columns.len() - 1] is Err
                &&& forall|j: int|
                    0 <= j < slot.columns.len() - 1 ==> (#[trigger] slot.columns[j]) is Ok
            }
        },
        slot.feeding matches Some(feeding) ==> {
            &&& call_ensures(calls.size, (&before,), feeding.size_before)
            &&& call_ensures(calls.size, (&after,), feeding.size_after)
        },
{
    if slot.feeding is None && slot.columns.len() > 0 {
        assert forall|j: int| 0 <= j < slot.columns.len() - 1 implies (
        #[trigger] slot.columns[j]) is Ok by {
            assert(slot.columns.drop_last()[j] == slot.columns[j]);
        }
    }
}

/// The values that an accumulator is fed are the columns of its expressions, all and in order.
pub proof fn accumulators_are_fed_their_columns(slot: SlotRun)
    ensures
        slot.values().len() == slot.columns.len(),
        forall|j: int|
            0 <= j < slot.columns.len() ==> #[trigger] slot.values()[j] == slot.columns[j]->Ok_0,
{
}

/// The growth of the accumulators is summed: each slot adds what its accumulator's size went up by,
/// and nothing where it went down or was not fed.
pub proof fn growth_is_summed(slots: Seq<SlotRun>, n: nat)
    ensures
        total_growth(slots, 0) == 0,
        total_growth(slots, n + 1) == total_growth(slots, n) + (match slots[n as int].feeding {
            Some(feeding) => if feeding.size_after > feeding.size_before {
                feeding.size_after - feeding.size_before
            } else {
                0
            },
            None => 0,
        }),
{
}

/// There is a slot at each place at which there is an accumulator, expressions and a filter entry.
pub proof fn slots_are_where_all_three_are(
    accumulators: nat,
    expressions: nat,
    filters: nat,
    i: nat,
)
    ensures
        i < slot_count(accumulators, expressions, filters) <==> i < accumulators && i < expressions
            && i < filters,
{
}

/// What a batch comes to. Every slot but the last was fed and took its values. Where that holds of
/// all and the growth fits a `usize`, the result is the growth. An error is that of the last slot:
/// of its filter, of its last expression, or of its accumulator. There is no result only where the
/// growth does not fit.
pub proof fn batch_comes_to_its_growth_or_its_error(
    slots: Seq<SlotRun>,
    count: nat,
    filtered: bool,
    expressions: nat,
    result: Option<Result<usize, AggregateError>>,
)
    requires
        comes_to(slots, count, result),
        slots.len() > 0 ==> slots.last().is_complete(filtered, expressions),
    ensures
        slots.len() <= count,
        forall|i: int| 0 <= i < slots.len() - 1 ==> {
            &&& !((#[trigger] slots[i]).filter matches Some(Err(_)))
            &&& slots[i].feeding matches Some(feeding)
            &&& feeding.reply is Ok
        },
        (slots.len() == count && total_growth(slots, count) <= usize::MAX && (slots.len() > 0 ==> {
            &&& !(slots.last().filter matches Some(Err(_)))
            &&& slots.last().feeding matches Some(feeding)
            &&& feeding.reply is Ok
        })) <==> result matches Some(Ok(_)),
        result matches Some(Ok(total)) ==> total == total_growth(slots, count),
        result matches Some(Err(error)) ==> {
            &&& slots.len() > 0
            &&& error matches AggregateError::DataFusion(e)
            &&& {
                ||| slots.last().filter == Some(Err::<Batch, _>(e))
                ||| {
                    &&& slots.last().feeding is None
                    &&& slots.last().columns.len() > 0
                    &&& slots.last().columns.last() == Err::<Column, _>(e)
                }
                ||| {
                    &&& slots.last().feeding matches Some(feeding)
                    &&& feeding.reply == Err::<(), _>(e)
                }
            }
        },
        result is None ==> slots.len() > 0 && total_growth(slots, slots.len()) > usize::MAX,
{
    assert forall|i: int| 0 <= i < slots.len() - 1 implies {
        &&& !((#[trigger] slots[i]).filter matches Some(Err(_)))
        &&& slots[i].feeding matches Some(feeding)
        &&& feeding.reply is Ok
    } by {
        assert(slots[i].error() is None);
    }
}

/// Whether columns make a batch under a schema, as [`columns_that_fit_make_their_batch`] has it.
pub open spec fn fit(schema: Schema, columns: Seq<Column>) -> bool {
    &&& columns.len() == schema_fields(schema).len()
    &&& columns.len() > 0
    &&& forall|i: int|
        #![trigger columns[i]]
        0 <= i < columns.len() ==> {
            &&& column_shape(columns[i]).data_type == schema_fields(schema)[i].data_type
            &&& column_shape(columns[i]).rows == column_shape(columns[0]).rows
            &&& !schema_fields(schema)[i].nullable ==> column_shape(columns[i]).nulls == 0
        }
}

/// Every batch that the input gives is brought to the accumulators next, and nothing else is; the
/// accumulators are finalized at the end of the input, and at no other time; the input is read when
/// the consumer polls and after each look, until the stream has finished.
pub proof fn every_batch_is_aggregated_next(
    state: StreamState,
    schema: Schema,
    event: StreamEvent,
    action: StreamAction,
    after: StreamState,
)
    requires
        state.steps(schema, event, action, after),
    ensures
        forall|batch: Batch| #![auto]
            event == StreamEvent::Input(Some(Ok(batch))) <==> action == StreamAction::Aggregate(
                batch,
            ),
        action is Finalize <==> event == StreamEvent::Input(None),
        action is End <==> event is Polled && state.finished,
        action is ReadInput <==> event is Polled && !state.finished || event is Peeked,
        action is Peek ==> event matches StreamEvent::Aggregated(Ok(_)),
        event matches StreamEvent::Aggregated(Ok(bytes)) ==> {
            ||| action is Peek && after.reserved == state.reserved + bytes
            ||| {
                &&& action matches StreamAction::Emit(Err(AggregateError::DataFusion(_)))
                &&& after.reserved == state.reserved
            }
        },
        !(event is Aggregated) ==> after.reserved == state.reserved,
        after.finished <==> state.finished || action is Emit || action is Finalize,
{
}

/// An item has a cause. A batch is made of the final columns, under the schema of the results; an
/// error is that of the input, of the accumulators, of the memory pool, or of the final columns,
/// and where none of these fails there is none.
pub proof fn every_item_has_a_cause(
    state: StreamState,
    schema: Schema,
    event: StreamEvent,
    item: Result<Batch, AggregateError>,
    after: StreamState,
)
    requires
        state.steps(schema, event, StreamAction::Emit(item), after),
    ensures
        item matches Ok(batch) ==> {
            &&& event matches StreamEvent::Finalized(Ok(columns))
            &&& batch_columns(batch) == columns@
            &&& batch_schema(batch) == schema
            &&& batch_rows(batch) == column_shape(columns@[0]).rows
        },
        item matches Err(error) ==> match event {
            StreamEvent::Input(Some(Err(e))) => error == AggregateError::DataFusion(e),
            StreamEvent::Aggregated(Err(e)) => error == e,
            StreamEvent::Aggregated(Ok(_)) => error is DataFusion,
            StreamEvent::Finalized(Err(e)) => error == AggregateError::DataFusion(e),
            StreamEvent::Finalized(Ok(columns)) => error is Arrow && !fit(schema, columns@),
            _ => false,
        },
{
    match event {
        StreamEvent::Finalized(Ok(columns)) => {
            columns_that_fit_make_their_batch(schema, columns@, item);
        },
        _ => {},
    }
}

/// In a run an item that is an error has a cause: the input, bringing a batch to the accumulators,
/// the memory pool or the final columns failed, or these do not make a batch.
pub proof fn error_of_a_run_has_a_cause<A, X, F>(
    run: StreamRun<A, X, F>,
    surroundings: Surroundings<A, X>,
    i: int,
    error: AggregateError,
)
    requires
        run.valid(surroundings),
        0 <= i < run.events.len(),
        run.actions[i] == StreamAction::Emit(Err(error)),
    ensures
        match run.events[i] {
            StreamEvent::Input(Some(Err(e))) => error == AggregateError::DataFusion(e),
            StreamEvent::Aggregated(Err(e)) => error == e,
            StreamEvent::Aggregated(Ok(_)) => exists|request: nat|
                (#[trigger] (surroundings.grant)(request)) is Err && error
                    == AggregateError::DataFusion((surroundings.grant)(request)->Err_0),
            StreamEvent::Finalized(Err(e)) => error == AggregateError::DataFusion(e),
            StreamEvent::Finalized(Ok(columns)) => error is Arrow && !fit(
                *run.before[i].schema,
                columns@,
            ),
            _ => false,
        },
{
    let schema = *run.before[i].schema;
    assert(run.decides(i));
    assert(run.meets(surroundings, i));
    every_item_has_a_cause(
        run.before[i].state(),
        schema,
        run.events[i],
        Err(error),
        run.after[i].state(),
    );
}

/// Where nothing fails, the item is a batch: the input gives batches and then its end, every batch
/// is taken by the accumulators, the memory pool grants all, and the final columns fit the schema.
pub proof fn run_without_failures_gives_a_batch<A, X, F>(
    run: StreamRun<A, X, F>,
    surroundings: Surroundings<A, X>,
    i: int,
)
    requires
        run.valid(surroundings),
        0 <= i < run.events.len(),
        run.actions[i] is Emit,
        forall|request: nat| (#[trigger] (surroundings.grant)(request)) is Ok,
        forall|k: int|
            0 <= k < run.events.len() ==> match #[trigger] run.events[k] {
                StreamEvent::Input(Some(given)) => given is Ok,
                StreamEvent::Aggregated(grown) => grown is Ok,
                StreamEvent::Finalized(columns) => columns is Ok && fit(
                    *run.before[k].schema,
                    columns->Ok_0@,
                ),
                _ => true,
            },
    ensures
        run.actions[i]->Emit_0 is Ok,
        run.events[i] matches StreamEvent::Finalized(Ok(columns)) && batch_columns(
            run.actions[i]->Emit_0->Ok_0,
        ) == columns@,
{
    if run.actions[i]->Emit_0 is Err {
        error_of_a_run_has_a_cause(run, surroundings, i, run.actions[i]->Emit_0->Err_0);
    } else {
        let schema = *run.before[i].schema;
        assert(run.decides(i));
        every_item_has_a_cause(
            run.before[i].state(),
            schema,
            run.events[i],
            run.actions[i]->Emit_0,
            run.after[i].state(),
        );
    }
}

/// In a run every batch that the input gives is brought to the accumulators next: the event after
/// it is what came of that.
pub proof fn run_brings_every_batch_to_the_accumulators<A, X, F>(
    run: StreamRun<A, X, F>,
    surroundings: Surroundings<A, X>,
    i: int,
    batch: Batch,
)
    requires
        run.valid(surroundings),
        0 <= i,
        i + 1 < run.events.len(),
        run.events[i] == StreamEvent::Input(Some(Ok(batch))),
    ensures
        run.actions[i] == StreamAction::Aggregate(batch),
        run.events[i + 1] is Aggregated,
        surroundings.model.aggregates(
            run.before[i].mode,
            batch,
            run.before[i].accumulators@,
            run.before[i].aggregate_expressions@,
            run.before[i].filter_expressions@,
            Some(run.events[i + 1]->Aggregated_0),
            run.before[i + 1].accumulators@,
        ),
{
    assert(run.decides(i));
    assert(run.continues(surroundings, i + 1));
}

/// A series of looks at one stream: `before[i]` and `after[i]` are the stream around the `i`-th, at
/// `times[i]`, which came to `contexts[i]`.
pub struct Looks<A, X, F> {
    /// When each look was, or was not, taken.
    pub times: Seq<u128>,
    /// What there was for the callback.
    pub contexts: Seq<Option<PeekContext>>,
    /// The stream before each.
    pub before: Seq<AggregateStreamInner<A, X, F>>,
    /// The stream after each.
    pub after: Seq<AggregateStreamInner<A, X, F>>,
}

impl<A, X, F> Looks<A, X, F> where F: Receives<PeekContext> {
    /// Whether each look went as the stream's looks go, and nothing but looking touched the calls
    /// and the time of the last look in between.
    pub open spec fn valid(self, config: IntermediatePeekConfig<F>) -> bool {
        &&& self.contexts.len() == self.times.len()
        &&& self.before.len() == self.times.len()
        &&& self.after.len() == self.times.len()
        &&& forall|i: int|
            0 <= i < self.times.len() ==> {
                &&& (#[trigger] self.before[i]).peek_config == Some(config)
                &&& self.after[i].last_peek_time == self.before[i].last_peek_at(self.times[i])
                &&& self.contexts[i] is Some ==> self.before[i].peeks_at(self.times[i])
                &&& self.contexts[i] is None ==> self.after[i].calls@ == self.before[i].calls@
                &&& self.contexts[i] matches Some(given) ==> exists|
                    answer: Result<(), DataFusionError>,
                |
                    {
                        &&& #[trigger] (*config.callback).gives(given, answer)
                        &&& self.after[i].calls@ == self.before[i].calls@.push((given, answer))
                    }
            }
        &&& forall|i: int|
            0 < i < self.times.len() ==> {
                &&& (#[trigger] self.before[i]).last_peek_time == self.after[i - 1].last_peek_time
                &&& self.before[i].calls@ == self.after[i - 1].calls@
            }
    }
}

/// How many of the first `n` looks came to something for the callback.
pub open spec fn contexts_among(contexts: Seq<Option<PeekContext>>, n: nat) -> nat
    decreases n,
{
    if n == 0 {
        0
    } else {
        contexts_among(contexts, (n - 1) as nat) + if contexts[n - 1] is Some {
            1nat
        } else {
            0
        }
    }
}

/// The callback is called once for each look that came to something for it, with that, and not at
/// all for the others.
pub proof fn each_look_calls_the_callback_once<A, X, F>(
    looks: Looks<A, X, F>,
    config: IntermediatePeekConfig<F>,
    n: nat,
) where F: Receives<PeekContext>
    requires
        looks.valid(config),
        0 < n <= looks.times.len(),
    ensures
        looks.after[n - 1].calls@.len() == looks.before[0].calls@.len() + contexts_among(
            looks.contexts,
            n,
        ),
        looks.contexts[n - 1] matches Some(given) ==> {
            let calls = looks.after[n - 1].calls@;
            &&& calls.len() == looks.before[n - 1].calls@.len() + 1
            &&& calls.drop_last() == looks.before[n - 1].calls@
            &&& calls.last().0 == given
            &&& (*config.callback).gives(given, calls.last().1)
        },
        looks.contexts[n - 1] is None ==> looks.after[n - 1].calls@ == looks.before[n - 1].calls@,
    decreases n,
{
    reveal_with_fuel(contexts_among, 2);
    assert(looks.before[n - 1].peek_config == Some(config));
    if looks.contexts[n - 1] is Some {
        assert(looks.after[n - 1].calls@.drop_last() =~= looks.before[n - 1].calls@);
    }
    if n > 1 {
        each_look_calls_the_callback_once(looks, config, (n - 1) as nat);
        assert(looks.before[n - 1].calls@ == looks.after[n - 2].calls@);
    }
}

/// Any two calls of the callback are at least the configured interval apart.
pub proof fn calls_keep_their_distance<A, X, F>(
    looks: Looks<A, X, F>,
    config: IntermediatePeekConfig<F>,
    first: int,
    second: int,
) where F: Receives<PeekContext>
    requires
        looks.valid(config),
        0 <= first < second < looks.times.len(),
        looks.contexts[first] is Some,
        looks.contexts[second] is Some,
        config.peek_interval_ms > 0,
    ensures
        looks.times[second] - looks.times[first] >= config.peek_interval_ms * 1_000_000,
{
    assert(looks.before[first].peek_config == Some(config));
    assert(looks.before[second].peek_config == Some(config));
    assert forall|i: int| 0 < i < looks.before.len() implies (
    #[trigger] looks.before[i]).last_peek_time == looks.after[i - 1].last_peek_time by {}
    peeks_keep_their_distance(config, looks.times, looks.before, looks.after, first, second);
}

} // verus!
