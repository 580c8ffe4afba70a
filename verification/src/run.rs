//! Whole runs of a stream: what is asked of the input, the expressions, the accumulators and the
//! memory pool, what the stream does with each answer, and what holds of the items that come out.
use crate::batch::BatchModel;
use crate::columns::{is_batch_of, Batch, Column};
use crate::error::AggregateError;
use crate::laws::{
    follows, lemma_course, mode_decides_between_update_and_merge, same_result, StreamTrace,
};
use crate::mode::AggregateMode;
use crate::no_grouping::{
    AggregateExec, AggregateStreamInner, StreamAction, StreamEvent, StreamState,
};
use crate::peek::PeekContext;
use datafusion_common::{DataFusionError, ScalarValue};
use vstd::prelude::*;

verus! {

/// What a stream meets with: an input, a memory pool, and expressions and accumulators whose
/// answers are functions of what they are given.
#[verifier::reject_recursive_types(A)]
#[verifier::reject_recursive_types(X)]
pub struct Surroundings<A, X> {
    /// What the input gives when it is read, by how often it was read before.
    pub input: spec_fn(nat) -> Option<Result<Batch, DataFusionError>>,
    /// What the memory pool answers, by how often it was asked before.
    pub grant: spec_fn(nat) -> Result<(), DataFusionError>,
    /// How filters, expressions and accumulators answer when a batch is brought to them.
    pub model: BatchModel<A, X>,
    /// What an accumulator answers when it is asked for its state, and what it is after that.
    pub answer: spec_fn(A) -> (Result<Vec<ScalarValue>, DataFusionError>, A),
    /// The final columns of accumulators, and what they are after that.
    pub finalize: spec_fn(Seq<A>, AggregateMode) -> (
        Result<Seq<Column>, DataFusionError>,
        Seq<A>,
    ),
}

impl<A, X> Surroundings<A, X> {
    /// Whether asking for its state leaves an accumulator as it was.
    pub open spec fn state_is_a_copy(self) -> bool {
        forall|accumulator: A| (#[trigger] (self.answer)(accumulator)).1 == accumulator
    }
}

/// A run of a stream: what happened to it, what it did each time, and what it was before and after
/// each decision. Between two decisions what it asked for is done.
pub struct StreamRun<A, X, F> {
    /// The events, in order.
    pub events: Seq<StreamEvent>,
    /// What the stream did at each event.
    pub actions: Seq<StreamAction>,
    /// The stream when each event came.
    pub before: Seq<AggregateStreamInner<A, X, F>>,
    /// The stream when it had decided what to do.
    pub after: Seq<AggregateStreamInner<A, X, F>>,
}

/// How often the input was read in the first `n` events.
pub open spec fn reads(events: Seq<StreamEvent>, n: nat) -> nat
    decreases n,
{
    if n == 0 {
        0
    } else {
        reads(events, (n - 1) as nat) + if events[n - 1] is Input {
            1nat
        } else {
            0
        }
    }
}

/// How often the memory pool was asked in the first `n` events.
pub open spec fn requests(events: Seq<StreamEvent>, n: nat) -> nat
    decreases n,
{
    if n == 0 {
        0
    } else {
        requests(events, (n - 1) as nat) + if events[n - 1] matches StreamEvent::Aggregated(Ok(_)) {
            1nat
        } else {
            0
        }
    }
}

/// What a reply of final columns holds.
pub open spec fn final_columns(reply: Result<Vec<Column>, DataFusionError>) -> Result<
    Seq<Column>,
    DataFusionError,
> {
    match reply {
        Ok(columns) => Ok(columns@),
        Err(e) => Err(e),
    }
}

/// Whether two streams differ in no more than their accumulators.
pub open spec fn same_but_fed<A, X, F>(
    one: AggregateStreamInner<A, X, F>,
    other: AggregateStreamInner<A, X, F>,
) -> bool {
    &&& one.same_but_looked_at(other)
    &&& one.last_peek_time == other.last_peek_time
}

/// Whether `event` is what comes once a stream, `decided` on `action`, has what it asked for, and
/// it is `next` then.
pub open spec fn carried_out<A, X, F>(
    surroundings: Surroundings<A, X>,
    action: StreamAction,
    decided: AggregateStreamInner<A, X, F>,
    event: StreamEvent,
    next: AggregateStreamInner<A, X, F>,
) -> bool {
    match action {
        StreamAction::End | StreamAction::Emit(_) => event is Polled && next == decided,
        StreamAction::ReadInput => event is Input && next == decided,
        StreamAction::Aggregate(batch) => {
            &&& event matches StreamEvent::Aggregated(grown)
            &&& surroundings.model.aggregates(
                decided.mode,
                batch,
                decided.accumulators@,
                decided.aggregate_expressions@,
                decided.filter_expressions@,
                Some(grown),
                next.accumulators@,
            )
            &&& same_but_fed(next, decided)
        },
        StreamAction::Peek => {
            &&& event is Peeked
            &&& next.same_but_looked_at(decided)
            &&& exists|now: u128, context: Option<PeekContext>|
                {
                    &&& #[trigger] decided.looks(
                        now,
                        surroundings.answer,
                        context,
                        next.accumulators@,
                    )
                    &&& next.last_peek_time == decided.last_peek_at(now)
                }
        },
        StreamAction::Finalize => {
            &&& event matches StreamEvent::Finalized(reply)
            &&& (final_columns(reply), next.accumulators@) == (surroundings.finalize)(
                decided.accumulators@,
                decided.mode,
            )
            &&& same_but_fed(next, decided)
        },
    }
}

impl<A, X, F> StreamRun<A, X, F> {
    /// Whether this is a run of a new stream in these surroundings.
    pub open spec fn valid(self, surroundings: Surroundings<A, X>) -> bool {
        &&& self.actions.len() == self.events.len()
        &&& self.before.len() == self.events.len()
        &&& self.after.len() == self.events.len()
        &&& self.events.len() > 0
        &&& self.events[0] is Polled
        &&& self.before[0].state() == (StreamState { finished: false, reserved: 0 })
        &&& forall|i: int| 0 <= i < self.events.len() ==> #[trigger] self.decides(i)
        &&& forall|i: int| 0 <= i < self.events.len() ==> #[trigger] self.meets(surroundings, i)
        &&& forall|i: int|
            0 < i < self.events.len() ==> #[trigger] self.continues(surroundings, i)
    }

    /// Whether the stream decides on the action at place `i`, and changes no more than its state.
    pub open spec fn decides(self, i: int) -> bool {
        &&& self.before[i].state().steps(
            *self.before[i].schema,
            self.events[i],
            self.actions[i],
            self.after[i].state(),
        )
        &&& self.after[i].last_peek_time == self.before[i].last_peek_time
        &&& self.after[i].same_aggregation(self.before[i])
    }

    /// Whether the input gives, and the pool answers, at place `i` what the surroundings say.
    pub open spec fn meets(self, surroundings: Surroundings<A, X>, i: int) -> bool {
        match self.events[i] {
            StreamEvent::Input(given) => given == (surroundings.input)(
                reads(self.events, i as nat),
            ),
            StreamEvent::Aggregated(Ok(_)) => match (surroundings.grant)(
                requests(self.events, i as nat),
            ) {
                Ok(_) => self.actions[i] is Peek,
                Err(e) => self.actions[i] == StreamAction::Emit(
                    Err(AggregateError::DataFusion(e)),
                ),
            },
            _ => true,
        }
    }

    /// Whether the event at place `i` comes of what the stream asked for before.
    pub open spec fn continues(self, surroundings: Surroundings<A, X>, i: int) -> bool {
        carried_out(
            surroundings,
            self.actions[i - 1],
            self.after[i - 1],
            self.events[i],
            self.before[i],
        )
    }

    /// The course of the run, without what the stream holds.
    pub open spec fn trace(self) -> StreamTrace {
        StreamTrace {
            events: self.events,
            actions: self.actions,
            states: Seq::new(
                self.events.len() + 1,
                |i: int|
                    if i == 0 {
                        self.before[0].state()
                    } else {
                        self.after[i - 1].state()
                    },
            ),
        }
    }
}

/// The parts of a stream that never change, at place `i` of a run.
proof fn lemma_fixed<A, X, F>(
    run: StreamRun<A, X, F>,
    surroundings: Surroundings<A, X>,
    i: int,
)
    requires
        run.valid(surroundings),
        0 <= i < run.events.len(),
    ensures
        *run.before[i].schema == *run.before[0].schema,
        run.before[i].mode == run.before[0].mode,
        run.before[i].aggregate_expressions == run.before[0].aggregate_expressions,
        run.before[i].filter_expressions == run.before[0].filter_expressions,
        i > 0 ==> run.before[i].state() == run.after[i - 1].state(),
    decreases i,
{
    if i > 0 {
        lemma_fixed(run, surroundings, i - 1);
        assert(run.decides(i - 1));
        assert(run.continues(surroundings, i));
    }
}

/// The course of a run is one that a stream may take, so what holds of every course holds of every
/// run: it hands on one item, and its reservation holds what was granted.
pub proof fn run_takes_a_course<A, X, F>(
    run: StreamRun<A, X, F>,
    surroundings: Surroundings<A, X>,
)
    requires
        run.valid(surroundings),
    ensures
        run.trace().valid(*run.before[0].schema),
{
    let trace = run.trace();
    let schema = *run.before[0].schema;
    assert forall|i: int| 0 <= i < trace.events.len() implies (#[trigger] trace.states[i]).steps(
        schema,
        trace.events[i],
        trace.actions[i],
        trace.states[i + 1],
    ) by {
        lemma_fixed(run, surroundings, i);
        assert(run.decides(i));
    }
    assert forall|i: int| 0 < i < trace.events.len() implies follows(
        trace.actions[i - 1],
        #[trigger] trace.events[i],
    ) by {
        assert(run.continues(surroundings, i));
    }
}

/// A look leaves the accumulators as they were where asking for a state does.
proof fn lemma_look_keeps<A, X, F>(
    stream: AggregateStreamInner<A, X, F>,
    now: u128,
    answer: spec_fn(A) -> (Result<Vec<ScalarValue>, DataFusionError>, A),
    context: Option<PeekContext>,
    after: Seq<A>,
)
    requires
        stream.looks(now, answer, context, after),
        forall|accumulator: A| (#[trigger] answer(accumulator)).1 == accumulator,
    ensures
        after == stream.accumulators@,
{
    assert(after =~= stream.accumulators@);
}

/// Whether two streams do the same work: all but what belongs to looking, and when they were made,
/// is the same.
pub open spec fn same_work<A, X, F, G>(
    one: AggregateStreamInner<A, X, F>,
    other: AggregateStreamInner<A, X, G>,
) -> bool {
    &&& *one.schema == *other.schema
    &&& one.mode == other.mode
    &&& one.aggregate_expressions@ == other.aggregate_expressions@
    &&& one.filter_expressions@ == other.filter_expressions@
    &&& one.accumulators@ == other.accumulators@
    &&& one.state() == other.state()
}

/// New streams of aggregations that differ only in how they are looked at do the same work.
pub proof fn new_streams_do_the_same_work<A, X, F, G>(
    one: AggregateStreamInner<A, X, F>,
    agg_one: AggregateExec<X, F>,
    expressions_one: Vec<Vec<X>>,
    accumulators_one: Vec<A>,
    other: AggregateStreamInner<A, X, G>,
    agg_other: AggregateExec<X, G>,
    expressions_other: Vec<Vec<X>>,
    accumulators_other: Vec<A>,
)
    requires
        one.is_new(agg_one, expressions_one, accumulators_one),
        other.is_new(agg_other, expressions_other, accumulators_other),
        *agg_one.schema == *agg_other.schema,
        agg_one.mode == agg_other.mode,
        agg_one.aggr_exprs == agg_other.aggr_exprs,
        agg_one.filter_expr@ == agg_other.filter_expr@,
        expressions_one@ == expressions_other@,
        accumulators_one@ == accumulators_other@,
    ensures
        same_work(one, other),
{
}

/// Whether two events are the same.
pub open spec fn same_event(one: StreamEvent, other: StreamEvent) -> bool {
    match (one, other) {
        (StreamEvent::Finalized(a), StreamEvent::Finalized(b)) => final_columns(a)
            == final_columns(b),
        _ => one == other,
    }
}

/// Whether two actions are the same: an item that is handed on is the same batch or error.
pub open spec fn same_action(one: StreamAction, other: StreamAction) -> bool {
    match (one, other) {
        (StreamAction::Emit(a), StreamAction::Emit(b)) => same_result(a, b),
        _ => one == other,
    }
}

/// Two runs that are alike when an event comes decide alike.
proof fn lemma_decisions_alike<A, X, F, G>(
    one: StreamRun<A, X, F>,
    other: StreamRun<A, X, G>,
    surroundings: Surroundings<A, X>,
    i: int,
)
    requires
        one.valid(surroundings),
        other.valid(surroundings),
        0 <= i < one.events.len(),
        i < other.events.len(),
        same_event(one.events[i], other.events[i]),
        same_work(one.before[i], other.before[i]),
        reads(one.events, i as nat) == reads(other.events, i as nat),
        requests(one.events, i as nat) == requests(other.events, i as nat),
    ensures
        same_action(one.actions[i], other.actions[i]),
        same_work(one.after[i], other.after[i]),
{
    assert(one.decides(i) && other.decides(i));
    assert(one.meets(surroundings, i) && other.meets(surroundings, i));
}

/// Two runs over the same input and the same grants are alike at every place.
proof fn lemma_runs_alike<A, X, F, G>(
    one: StreamRun<A, X, F>,
    other: StreamRun<A, X, G>,
    surroundings: Surroundings<A, X>,
    i: int,
)
    requires
        one.valid(surroundings),
        other.valid(surroundings),
        surroundings.state_is_a_copy(),
        same_work(one.before[0], other.before[0]),
        0 <= i < one.events.len(),
        i < other.events.len(),
    ensures
        same_event(one.events[i], other.events[i]),
        same_work(one.before[i], other.before[i]),
        reads(one.events, i as nat) == reads(other.events, i as nat),
        requests(one.events, i as nat) == requests(other.events, i as nat),
    decreases i,
{
    if i > 0 {
        lemma_runs_alike(one, other, surroundings, i - 1);
        lemma_decisions_alike(one, other, surroundings, i - 1);
        assert(one.continues(surroundings, i) && other.continues(surroundings, i));
        assert(one.meets(surroundings, i) && other.meets(surroundings, i));
        let decided = one.after[i - 1];
        match one.actions[i - 1] {
            StreamAction::Aggregate(batch) => {
                mode_decides_between_update_and_merge(
                    surroundings.model,
                    decided.mode,
                    decided.mode,
                    batch,
                    decided.accumulators@,
                    decided.aggregate_expressions@,
                    decided.filter_expressions@,
                    Some(one.events[i]->Aggregated_0),
                    one.before[i].accumulators@,
                    Some(other.events[i]->Aggregated_0),
                    other.before[i].accumulators@,
                );
            },
            StreamAction::Peek => {
                lemma_peek_keeps(one, surroundings, i);
                lemma_peek_keeps(other, surroundings, i);
            },
            _ => {},
        }
    }
}

/// What the stream does when it looks leaves the accumulators as they were.
proof fn lemma_peek_keeps<A, X, F>(
    run: StreamRun<A, X, F>,
    surroundings: Surroundings<A, X>,
    i: int,
)
    requires
        run.valid(surroundings),
        surroundings.state_is_a_copy(),
        0 < i < run.events.len(),
        run.actions[i - 1] is Peek,
    ensures
        run.before[i].accumulators@ == run.after[i - 1].accumulators@,
{
    assert(run.continues(surroundings, i));
    let decided = run.after[i - 1];
    let next = run.before[i];
    let (now, context) = choose|now: u128, context: Option<PeekContext>|
        {
            &&& #[trigger] decided.looks(now, surroundings.answer, context, next.accumulators@)
            &&& next.last_peek_time == decided.last_peek_at(now)
        };
    lemma_look_keeps(decided, now, surroundings.answer, context, next.accumulators@);
}

/// Looking at the intermediate results never affects the results. Two streams that do the same
/// work, over the same input and with the same grants of memory, do the same at every event and
/// hand on the same items, however they are looked at: not at all, at any interval and at any time,
/// and with any callback, whatever it answers. Asking for its state has to leave an accumulator as
/// it was.
pub proof fn looking_does_not_affect_the_results<A, X, F, G>(
    one: StreamRun<A, X, F>,
    other: StreamRun<A, X, G>,
    surroundings: Surroundings<A, X>,
)
    requires
        one.valid(surroundings),
        other.valid(surroundings),
        surroundings.state_is_a_copy(),
        same_work(one.before[0], other.before[0]),
    ensures
        forall|i: int|
            0 <= i < one.actions.len() && i < other.actions.len() ==> same_action(
                #[trigger] one.actions[i],
                other.actions[i],
            ),
        forall|i: int|
            0 <= i < one.after.len() && i < other.after.len() ==> same_work(
                #[trigger] one.after[i],
                other.after[i],
            ),
{
    assert forall|i: int| 0 <= i < one.actions.len() && i < other.actions.len() implies same_action(
        #[trigger] one.actions[i],
        other.actions[i],
    ) by {
        lemma_runs_alike(one, other, surroundings, i);
        lemma_decisions_alike(one, other, surroundings, i);
    }
    assert forall|i: int| 0 <= i < one.after.len() && i < other.after.len() implies same_work(
        #[trigger] one.after[i],
        other.after[i],
    ) by {
        lemma_runs_alike(one, other, surroundings, i);
        lemma_decisions_alike(one, other, surroundings, i);
    }
}

/// The accumulators of a stream once the first `count` batches of the input were brought to them,
/// each once and in order.
pub open spec fn fed<A, X, F>(
    surroundings: Surroundings<A, X>,
    stream: AggregateStreamInner<A, X, F>,
    count: nat,
) -> Seq<A>
    decreases count,
{
    if count == 0 {
        stream.accumulators@
    } else {
        surroundings.model.accumulators_after(
            stream.mode,
            (surroundings.input)((count - 1) as nat)->Some_0->Ok_0,
            fed(surroundings, stream, (count - 1) as nat),
            stream.aggregate_expressions@,
            stream.filter_expressions@,
        )
    }
}

/// Whether the first `count` reads of the input give a batch each.
pub open spec fn gives_batches<A, X>(surroundings: Surroundings<A, X>, count: nat) -> bool {
    forall|k: nat|
        k < count ==> (#[trigger] (surroundings.input)(k)) matches Some(Ok(_))
}

/// As long as a stream has not finished, its accumulators hold what was read, and nothing failed.
proof fn lemma_fed<A, X, F>(run: StreamRun<A, X, F>, surroundings: Surroundings<A, X>, i: int)
    requires
        run.valid(surroundings),
        surroundings.state_is_a_copy(),
        0 <= i < run.events.len(),
        !run.before[i].finished,
    ensures
        gives_batches(surroundings, reads(run.events, i as nat)),
        run.before[i].accumulators@ == fed(
            surroundings,
            run.before[0],
            reads(run.events, i as nat),
        ),
        forall|j: int|
            0 <= j < i && (#[trigger] run.events[j]) is Aggregated
                ==> run.events[j]->Aggregated_0 is Ok,
    decreases i,
{
    if i > 0 {
        let schema = *run.before[0].schema;
        run_takes_a_course(run, surroundings);
        lemma_course(run.trace(), schema, i);
        lemma_fixed(run, surroundings, i);
        lemma_fixed(run, surroundings, i - 1);
        assert(run.trace().states[i] == run.after[i - 1].state());
        assert(run.decides(i - 1));
        assert(run.meets(surroundings, i - 1));
        assert(run.continues(surroundings, i));
        assert(!run.before[i - 1].finished);
        lemma_fed(run, surroundings, i - 1);
        if run.actions[i - 1] is Peek {
            lemma_peek_keeps(run, surroundings, i);
        }
        assert(reads(run.events, i as nat) == reads(run.events, (i - 1) as nat) + if run.events[i
            - 1] is Input {
            1nat
        } else {
            0
        });
    }
}

/// The result of a stream is made of all its input. When the final columns come, every batch up to
/// the end of the input was brought to the accumulators, once and in order and without an error;
/// the final columns are those of the accumulators after that, and the item handed on is their
/// batch, or the error. No batch is handed on otherwise. Asking for its state has to leave an
/// accumulator as it was.
pub proof fn result_is_made_of_all_input<A, X, F>(
    run: StreamRun<A, X, F>,
    surroundings: Surroundings<A, X>,
    i: int,
)
    requires
        run.valid(surroundings),
        surroundings.state_is_a_copy(),
        0 <= i < run.events.len(),
        run.actions[i] is Emit,
    ensures
        run.actions[i]->Emit_0 is Ok ==> run.events[i] is Finalized,
        run.events[i] matches StreamEvent::Finalized(_) ==> {
            let count = (reads(run.events, i as nat) - 1) as nat;
            let stream = run.before[0];
            &&& gives_batches(surroundings, count)
            &&& (surroundings.input)(count) is None
            &&& forall|j: int|
                0 <= j < i && (#[trigger] run.events[j]) is Aggregated
                    ==> run.events[j]->Aggregated_0 is Ok
            &&& match (surroundings.finalize)(fed(surroundings, stream, count), stream.mode).0 {
                Ok(columns) => is_batch_of(*stream.schema, columns, run.actions[i]->Emit_0),
                Err(e) => run.actions[i]->Emit_0 == Err::<Batch, _>(AggregateError::DataFusion(e)),
            }
        },
{
    assert(run.decides(i));
    lemma_fixed(run, surroundings, i);
    if run.events[i] is Finalized {
        let schema = *run.before[0].schema;
        assert(run.continues(surroundings, i));
        assert(run.decides(i - 1));
        assert(run.meets(surroundings, i - 1));
        assert(run.actions[i - 1] is Finalize);
        assert(run.events[i - 1] is Input);
        assert(run.continues(surroundings, i - 1));
        run_takes_a_course(run, surroundings);
        lemma_course(run.trace(), schema, i - 1);
        assert(run.trace().states[i - 1] == run.after[i - 2].state());
        lemma_fixed(run, surroundings, i - 1);
        lemma_fed(run, surroundings, i - 1);
        reveal_with_fuel(reads, 2);
    }
}

} // verus!
