//! Aggregation without grouping columns.
//!
//! The input, the expressions and the accumulators are the caller's. An [`AggregateStreamInner`]
//! holds the state of the stream and decides, event by event, what is done next: read input, bring
//! a batch to the accumulators, look at the intermediate results, make the final values, or hand
//! an item on.
use crate::calls::{CallLog, Receives};
use crate::clock::{is_reading, now, reading};
use crate::columns::{all_fit, batch_rows, is_batch_of, make_batch, Batch, Column};
use crate::error::AggregateError;
use crate::intermediate::{build_intermediate_batch, builds, shows, was_asked};
use crate::memory::{register, reserved_bytes, reserved_for, size, try_grow};
use crate::mode::AggregateMode;
use crate::peek::{peek_due, IntermediatePeekConfig, PeekContext};
use crate::text::{append_decimal, decimal};
use arrow::datatypes::Schema;
use datafusion_common::{DataFusionError, ScalarValue};
use datafusion_execution::memory_pool::MemoryReservation;
use datafusion_execution::TaskContext;
use std::sync::Arc;
use std::time::Instant;
use vstd::prelude::*;

verus! {

/// What a stream takes from the aggregation that it carries out.
pub struct AggregateExec<X, F> {
    /// The schema of the results.
    pub schema: Arc<Schema>,
    /// The mode of the aggregation.
    pub mode: AggregateMode,
    /// The number of aggregate expressions.
    pub aggr_exprs: usize,
    /// The filters of the aggregate expressions, where they have one.
    pub filter_expr: Vec<Option<X>>,
    /// How intermediate results are looked at, if at all.
    pub intermediate_peek_config: Option<IntermediatePeekConfig<F>>,
}

/// The filters that apply to the input: those of the aggregate expressions where rows come in,
/// none where partial states do, whose rows were filtered before.
pub open spec fn spec_filter_expressions<X>(
    mode: AggregateMode,
    filter_expr: Seq<Option<X>>,
    aggr_exprs: nat,
) -> Seq<Option<X>> {
    if mode.spec_merges() {
        Seq::new(aggr_exprs, |i: int| None::<X>)
    } else {
        filter_expr
    }
}

/// The filters that apply to the input: those of the aggregate expressions where rows come in,
/// none where partial states do, whose rows were filtered before.
pub fn filter_expressions<X>(
    mode: &AggregateMode,
    filter_expr: Vec<Option<X>>,
    aggr_exprs: usize,
) -> (filters: Vec<Option<X>>)
    ensures
        filters@ == spec_filter_expressions(*mode, filter_expr@, aggr_exprs as nat),
{
    if mode.merges() {
        let mut filters: Vec<Option<X>> = Vec::new();
        for i in 0..aggr_exprs
            invariant
                filters@ == Seq::new(i as nat, |j: int| None::<X>),
        {
            filters.push(None);
            assert(filters@ =~= Seq::new((i + 1) as nat, |j: int| None::<X>));
        }
        filters
    } else {
        filter_expr
    }
}

/// What happened to a stream.
pub enum StreamEvent {
    /// The consumer asks for the next item.
    Polled,
    /// The input gave a batch, an error, or its end.
    Input(Option<Result<Batch, DataFusionError>>),
    /// A batch was brought to the accumulators, which grew by so many bytes.
    Aggregated(Result<usize, AggregateError>),
    /// The intermediate results were looked at, if a look was due.
    Peeked,
    /// The accumulators gave their final columns.
    Finalized(Result<Vec<Column>, DataFusionError>),
}

/// What is done next for a stream.
pub enum StreamAction {
    /// Tell the consumer that there are no more items.
    End,
    /// Read the input.
    ReadInput,
    /// Bring the batch to the accumulators.
    Aggregate(Batch),
    /// Look at the intermediate results.
    Peek,
    /// Ask the accumulators for their final columns.
    Finalize,
    /// Hand an item to the consumer.
    Emit(Result<Batch, AggregateError>),
}

/// The part of a stream that its decisions rest on.
pub struct StreamState {
    /// Whether the consumer has been handed, or is about to be handed, the only item.
    pub finished: bool,
    /// The bytes that the stream has reserved.
    pub reserved: nat,
}

impl StreamState {
    /// The state once nothing more is read.
    pub open spec fn ended(self) -> Self {
        StreamState { finished: true, ..self }
    }

    /// Whether a stream in this state, with results of schema `schema`, may answer `event` with
    /// `action` and be in state `after` then. More than one answer is open only where the memory
    /// pool decides, and in what an error from arrow or the pool says.
    pub open spec fn steps(
        self,
        schema: Schema,
        event: StreamEvent,
        action: StreamAction,
        after: Self,
    ) -> bool {
        match event {
            StreamEvent::Polled => {
                &&& after == self
                &&& action == (if self.finished {
                    StreamAction::End
                } else {
                    StreamAction::ReadInput
                })
            },
            StreamEvent::Input(Some(Ok(batch))) => {
                &&& after == self
                &&& action == StreamAction::Aggregate(batch)
            },
            StreamEvent::Input(Some(Err(e))) => {
                &&& after == self.ended()
                &&& action == StreamAction::Emit(Err(AggregateError::DataFusion(e)))
            },
            StreamEvent::Input(None) => {
                &&& after == self.ended()
                &&& action == StreamAction::Finalize
            },
            StreamEvent::Aggregated(Ok(bytes)) => {
                ||| {
                    &&& after == StreamState { reserved: self.reserved + bytes as nat, ..self }
                    &&& action == StreamAction::Peek
                }
                ||| {
                    &&& after == self.ended()
                    &&& action matches StreamAction::Emit(Err(AggregateError::DataFusion(_)))
                }
            },
            StreamEvent::Aggregated(Err(e)) => {
                &&& after == self.ended()
                &&& action == StreamAction::Emit(Err(e))
            },
            StreamEvent::Peeked => {
                &&& after == self
                &&& action == StreamAction::ReadInput
            },
            StreamEvent::Finalized(Ok(columns)) => {
                &&& after == self.ended()
                &&& action matches StreamAction::Emit(item) && is_batch_of(schema, columns@, item)
            },
            StreamEvent::Finalized(Err(e)) => {
                &&& after == self.ended()
                &&& action == StreamAction::Emit(Err(AggregateError::DataFusion(e)))
            },
        }
    }
}

/// The state of an aggregation without grouping columns: accumulators of type `A`, expressions of
/// type `X`, and a callback of type `F` for intermediate results.
pub struct AggregateStreamInner<A, X, F> {
    /// The schema of the results.
    pub schema: Arc<Schema>,
    /// The mode of the aggregation.
    pub mode: AggregateMode,
    /// The expressions whose values each accumulator is fed.
    pub aggregate_expressions: Vec<Vec<X>>,
    /// The filter of each accumulator's input, where it has one.
    pub filter_expressions: Vec<Option<X>>,
    /// The accumulators.
    pub accumulators: Vec<A>,
    /// The memory that the stream has reserved.
    pub reservation: MemoryReservation,
    /// Whether the only item was handed on, or is about to be.
    pub finished: bool,
    /// How intermediate results are looked at, if at all.
    pub peek_config: Option<IntermediatePeekConfig<F>>,
    /// When the last look was taken, in nanoseconds since `started`.
    pub last_peek_time: Option<u128>,
    /// When the stream was made.
    pub started: Instant,
    /// The calls that were made of the callback.
    pub calls: CallLog<PeekContext>,
}

/// The name under which the stream of a partition reserves memory.
pub open spec fn consumer_name(partition: nat) -> Seq<char> {
    "AggregateStream["@ + decimal(partition) + "]"@
}

impl<A, X, F> AggregateStreamInner<A, X, F> {
    /// The part of the stream that its decisions rest on.
    pub open spec fn state(self) -> StreamState {
        StreamState { finished: self.finished, reserved: reserved_bytes(self.reservation) }
    }

    /// Whether two streams have the same aggregation: all but their state, and the time of the
    /// last look, is the same.
    pub open spec fn same_aggregation(self, other: Self) -> bool {
        &&& self.schema == other.schema
        &&& self.mode == other.mode
        &&& self.aggregate_expressions == other.aggregate_expressions
        &&& self.filter_expressions == other.filter_expressions
        &&& self.accumulators == other.accumulators
        &&& reserved_for(self.reservation) == reserved_for(other.reservation)
        &&& self.peek_config == other.peek_config
        &&& self.started == other.started
        &&& self.calls@ == other.calls@
    }

    /// Whether this is a stream of the aggregation before it has read any input.
    pub open spec fn is_new(
        self,
        agg: AggregateExec<X, F>,
        aggregate_expressions: Vec<Vec<X>>,
        accumulators: Vec<A>,
    ) -> bool {
        &&& self.schema == agg.schema
        &&& self.mode == agg.mode
        &&& self.aggregate_expressions == aggregate_expressions
        &&& self.filter_expressions@ == spec_filter_expressions(
            agg.mode,
            agg.filter_expr@,
            agg.aggr_exprs as nat,
        )
        &&& self.accumulators == accumulators
        &&& self.state() == (StreamState { finished: false, reserved: 0 })
        &&& self.peek_config == agg.intermediate_peek_config
        &&& self.last_peek_time is None
        &&& self.calls@.len() == 0
    }

    /// The stream of one partition of an aggregation, before it has read any input.
    pub fn new(
        agg: AggregateExec<X, F>,
        aggregate_expressions: Vec<Vec<X>>,
        accumulators: Vec<A>,
        context: &TaskContext,
        partition: usize,
    ) -> (stream: Self)
        ensures
            stream.is_new(agg, aggregate_expressions, accumulators),
            reserved_for(stream.reservation) == consumer_name(partition as nat),
    {
        let filter_expressions = filter_expressions(&agg.mode, agg.filter_expr, agg.aggr_exprs);
        let mut name = String::new();
        name.append("AggregateStream[");
        append_decimal(&mut name, partition as u64);
        name.append("]");
        assert(name@ =~= consumer_name(partition as nat));
        AggregateStreamInner {
            schema: agg.schema,
            mode: agg.mode,
            aggregate_expressions,
            filter_expressions,
            accumulators,
            reservation: register(name, context),
            finished: false,
            peek_config: agg.intermediate_peek_config,
            last_peek_time: None,
            started: now(),
            calls: CallLog::begin(context),
        }
    }

    /// Decides how the stream goes on once the memory pool has granted, or refused, the bytes by
    /// which the accumulators grew.
    pub fn grown(&mut self, granted: Result<(), DataFusionError>) -> (action: StreamAction)
        ensures
            match granted {
                Ok(_) => {
                    &&& action == StreamAction::Peek
                    &&& final(self).finished == old(self).finished
                },
                Err(e) => {
                    &&& action == StreamAction::Emit(Err(AggregateError::DataFusion(e)))
                    &&& final(self).finished
                },
            },
            final(self).reservation == old(self).reservation,
            final(self).last_peek_time == old(self).last_peek_time,
            final(self).same_aggregation(*old(self)),
    {
        match granted {
            Ok(_) => StreamAction::Peek,
            Err(e) => {
                self.finished = true;
                StreamAction::Emit(Err(AggregateError::DataFusion(e)))
            },
        }
    }

    /// Decides what is done next for the stream. The bytes that it has reserved have to fit a
    /// `usize` together with those by which its accumulators grew.
    pub fn step(&mut self, event: StreamEvent) -> (action: StreamAction)
        requires
            event matches StreamEvent::Aggregated(Ok(bytes)) ==> old(self).state().reserved + bytes
                <= usize::MAX,
        ensures
            old(self).state().steps(*old(self).schema, event, action, final(self).state()),
            final(self).last_peek_time == old(self).last_peek_time,
            final(self).same_aggregation(*old(self)),
    {
        match event {
            StreamEvent::Polled => if self.finished {
                StreamAction::End
            } else {
                StreamAction::ReadInput
            },
            StreamEvent::Input(Some(Ok(batch))) => StreamAction::Aggregate(batch),
            StreamEvent::Input(Some(Err(e))) => {
                self.finished = true;
                StreamAction::Emit(Err(AggregateError::DataFusion(e)))
            },
            StreamEvent::Input(None) => {
                self.finished = true;
                StreamAction::Finalize
            },
            StreamEvent::Aggregated(Ok(bytes)) => {
                let granted = try_grow(&mut self.reservation, bytes);
                self.grown(granted)
            },
            StreamEvent::Aggregated(Err(e)) => {
                self.finished = true;
                StreamAction::Emit(Err(e))
            },
            StreamEvent::Peeked => StreamAction::ReadInput,
            StreamEvent::Finalized(Ok(columns)) => {
                self.finished = true;
                StreamAction::Emit(make_batch(&self.schema, columns))
            },
            StreamEvent::Finalized(Err(e)) => {
                self.finished = true;
                StreamAction::Emit(Err(AggregateError::DataFusion(e)))
            },
        }
    }

    /// Decides what is done next for the stream, unless the bytes that it would have reserved do
    /// not fit a `usize`: then nothing changes.
    pub fn checked_step(&mut self, event: StreamEvent) -> (action: Option<StreamAction>)
        ensures
            action is None <==> (event matches StreamEvent::Aggregated(Ok(bytes)) && old(
                self,
            ).state().reserved + bytes > usize::MAX),
            action is None ==> *final(self) == *old(self),
            action matches Some(a) ==> old(self).state().steps(
                *old(self).schema,
                event,
                a,
                final(self).state(),
            ),
            final(self).last_peek_time == old(self).last_peek_time,
            final(self).same_aggregation(*old(self)),
    {
        let fits = match &event {
            StreamEvent::Aggregated(Ok(bytes)) => *bytes <= usize::MAX - size(&self.reservation),
            _ => true,
        };
        if fits {
            Some(self.step(event))
        } else {
            None
        }
    }

    /// Whether a look at the intermediate results is taken at `now`: one is configured, and due.
    pub open spec fn peeks_at(self, now: u128) -> bool {
        self.peek_config matches Some(config) && peek_due(
            config.peek_interval_ms,
            self.last_peek_time,
            now,
        )
    }

    /// Whether two streams differ in no more than their accumulators and the time of the last
    /// look.
    pub open spec fn same_but_looked_at(self, other: Self) -> bool {
        &&& self.schema == other.schema
        &&& self.mode == other.mode
        &&& self.aggregate_expressions == other.aggregate_expressions
        &&& self.filter_expressions == other.filter_expressions
        &&& self.accumulators@.len() == other.accumulators@.len()
        &&& self.reservation == other.reservation
        &&& self.finished == other.finished
        &&& self.peek_config == other.peek_config
        &&& self.started == other.started
    }

    /// The time of the last look after one was, or was not, taken at `now`.
    pub open spec fn last_peek_at(self, now: u128) -> Option<u128> {
        if self.peeks_at(now) {
            Some(now)
        } else {
            self.last_peek_time
        }
    }

    /// What the callback is given when the batch of intermediate results came as `made`: nothing
    /// where it could not be made.
    pub open spec fn context_of(self, made: Result<Batch, AggregateError>) -> Option<PeekContext> {
        match made {
            Ok(intermediate_batch) => Some(PeekContext { mode: self.mode, intermediate_batch }),
            Err(_) => None,
        }
    }

    /// Whether a look at `now` comes to `context`, and leaves the accumulators as `after`, where
    /// accumulators answer as `answer` says.
    pub open spec fn looks(
        self,
        now: u128,
        answer: spec_fn(A) -> (Result<Vec<ScalarValue>, DataFusionError>, A),
        context: Option<PeekContext>,
        after: Seq<A>,
    ) -> bool {
        if self.peeks_at(now) {
            exists|made: Result<Batch, AggregateError>|
                {
                    &&& #[trigger] builds(
                        self.mode,
                        self.accumulators@,
                        *self.schema,
                        answer,
                        made,
                        after,
                    )
                    &&& context == self.context_of(made)
                }
        } else {
            context is None && after == self.accumulators@
        }
    }

    /// Takes a look at the intermediate results if that is configured and due at `now`, in
    /// nanoseconds since the stream was made: the accumulators are asked in turn with `state`. What
    /// comes back is for the callback. There is nothing for it if and only if no look is due, or
    /// the batch of intermediate results cannot be made.
    pub fn look_at<S>(&mut self, now: u128, state: &S) -> (context: Option<PeekContext>) where
        S: Fn(&mut A) -> Result<Vec<ScalarValue>, DataFusionError>,

        requires
            forall|accumulator: &mut A| call_requires(*state, (accumulator,)),
            forall|accumulator: &mut A, scalars: Vec<ScalarValue>|
                #[trigger] call_ensures(*state, (accumulator,), Ok::<_, DataFusionError>(scalars))
                    ==> all_fit(scalars@),
        ensures
            final(self).same_but_looked_at(*old(self)),
            final(self).last_peek_time == old(self).last_peek_at(now),
            final(self).calls@ == old(self).calls@,
            !(old(self).peeks_at(now) && old(self).mode.spec_peekable()) ==> {
                &&& context is None
                &&& final(self).accumulators == old(self).accumulators
            },
            old(self).peeks_at(now) && old(self).mode.spec_peekable() ==> exists|
                states: Seq<Result<Vec<ScalarValue>, DataFusionError>>,
                made: Result<Batch, AggregateError>,
            |
                {
                    &&& #[trigger] shows(
                        states,
                        old(self).accumulators@.len(),
                        *old(self).schema,
                        made,
                    )
                    &&& forall|i: int|
                        #![trigger was_asked(states, i)]
                        #![trigger states[i]]
                        was_asked(states, i) ==> exists|asked: &mut A|
                            {
                                &&& #[trigger] call_ensures(*state, (asked,), states[i])
                                &&& *asked == old(self).accumulators@[i]
                                &&& *final(asked) == final(self).accumulators@[i]
                            }
                    &&& forall|i: int|
                        states.len() <= i < old(self).accumulators@.len()
                            ==> #[trigger] final(self).accumulators@[i] == old(self).accumulators@[i]
                    &&& context == old(self).context_of(made)
                },
            context matches Some(c) ==> batch_rows(c.intermediate_batch) == 1,
            (forall|asked: &mut A, reply: Result<Vec<ScalarValue>, DataFusionError>|
                #[trigger] call_ensures(*state, (asked,), reply) ==> *final(asked) == *asked)
                ==> final(self).accumulators@ == old(self).accumulators@,
            forall|answer: spec_fn(A) -> (Result<Vec<ScalarValue>, DataFusionError>, A)|
                (forall|asked: &mut A, reply: Result<Vec<ScalarValue>, DataFusionError>|
                    #[trigger] call_ensures(*state, (asked,), reply) ==> answer(*asked) == (
                        reply,
                        *final(asked),
                    )) ==> #[trigger] old(self).looks(
                    now,
                    answer,
                    context,
                    final(self).accumulators@,
                ),
    {
        let due = match &self.peek_config {
            Some(config) => config.is_due(self.last_peek_time, now),
            None => false,
        };
        if !due {
            return None;
        }
        self.last_peek_time = Some(now);
        let made = build_intermediate_batch(
            &mut self.accumulators,
            &self.mode,
            &self.schema,
            state,
        );
        let ghost given = made;
        let context = match made {
            Ok(intermediate_batch) => Some(PeekContext { mode: self.mode, intermediate_batch }),
            Err(_) => None,
        };
        proof {
            assert(context == old(self).context_of(given));
            assert forall|answer: spec_fn(A) -> (Result<Vec<ScalarValue>, DataFusionError>, A)|
                (forall|asked: &mut A, reply: Result<Vec<ScalarValue>, DataFusionError>|
                    #[trigger] call_ensures(*state, (asked,), reply) ==> answer(*asked) == (
                        reply,
                        *final(asked),
                    )) implies #[trigger] old(self).looks(
                now,
                answer,
                context,
                self.accumulators@,
            ) by {
                assert(builds(
                    old(self).mode,
                    old(self).accumulators@,
                    *old(self).schema,
                    answer,
                    given,
                    self.accumulators@,
                ));
            }
        }
        context
    }
}

impl<A, X, F> AggregateStreamInner<A, X, F> where F: Receives<PeekContext> {
    /// Whether the callback was given the context, where there is one.
    pub open spec fn hands_on(self, context: Option<PeekContext>) -> bool {
        context matches Some(given) ==> {
            &&& self.peek_config matches Some(config)
            &&& exists|answer: Result<(), DataFusionError>| #[trigger]
                (*config.callback).gives(given, answer)
        }
    }

    /// Looks at the intermediate results if that is configured and due at `now`, in nanoseconds
    /// since the stream was made: what [`look_at`](Self::look_at) gives is handed to the callback.
    /// Where the batch cannot be made the look is skipped, and what the callback answers is
    /// ignored: a look never fails.
    pub fn peek_intermediate_results_at<S>(&mut self, now: u128, state: &S) -> (peeked: Result<
        (),
        DataFusionError,
    >) where S: Fn(&mut A) -> Result<Vec<ScalarValue>, DataFusionError>
        requires
            old(self).peek_config matches Some(config) ==> forall|context: PeekContext|
                (*config.callback).accepts(context),
            forall|accumulator: &mut A| call_requires(*state, (accumulator,)),
            forall|accumulator: &mut A, scalars: Vec<ScalarValue>|
                #[trigger] call_ensures(*state, (accumulator,), Ok::<_, DataFusionError>(scalars))
                    ==> all_fit(scalars@),
        ensures
            peeked is Ok,
            final(self).same_but_looked_at(*old(self)),
            final(self).last_peek_time == old(self).last_peek_at(now),
            !(old(self).peeks_at(now) && old(self).mode.spec_peekable())
                ==> final(self).accumulators == old(self).accumulators,
            exists|context: Option<PeekContext>|
                {
                    &&& #[trigger] old(self).hands_on(context)
                    &&& context is None ==> final(self).calls@ == old(self).calls@
                    &&& context matches Some(given) ==> exists|answer: Result<(), DataFusionError>|
                        {
                            &&& #[trigger] (*old(self).peek_config->0.callback).gives(given, answer)
                            &&& final(self).calls@ == old(self).calls@.push((given, answer))
                        }
                    &&& !(old(self).peeks_at(now) && old(self).mode.spec_peekable()) ==> context is None
                    &&& old(self).peeks_at(now) && old(self).mode.spec_peekable() ==> exists|
                        states: Seq<Result<Vec<ScalarValue>, DataFusionError>>,
                        made: Result<Batch, AggregateError>,
                    |
                        {
                            &&& #[trigger] shows(
                                states,
                                old(self).accumulators@.len(),
                                *old(self).schema,
                                made,
                            )
                            &&& forall|i: int|
                                #![trigger was_asked(states, i)]
                                #![trigger states[i]]
                                was_asked(states, i) ==> exists|asked: &mut A|
                                    {
                                        &&& #[trigger] call_ensures(*state, (asked,), states[i])
                                        &&& *asked == old(self).accumulators@[i]
                                        &&& *final(asked) == final(self).accumulators@[i]
                                    }
                            &&& forall|i: int|
                                states.len() <= i < old(self).accumulators@.len()
                                    ==> #[trigger] final(self).accumulators@[i]
                                    == old(self).accumulators@[i]
                            &&& context == old(self).context_of(made)
                        }
                    &&& context matches Some(c) ==> batch_rows(c.intermediate_batch) == 1
                    &&& forall|answer: spec_fn(A) -> (Result<Vec<ScalarValue>, DataFusionError>, A)|
                        (forall|asked: &mut A, reply: Result<Vec<ScalarValue>, DataFusionError>|
                            #[trigger] call_ensures(*state, (asked,), reply) ==> answer(*asked) == (
                                reply,
                                *final(asked),
                            )) ==> #[trigger] old(self).looks(
                            now,
                            answer,
                            context,
                            final(self).accumulators@,
                        )
                },
            (forall|asked: &mut A, reply: Result<Vec<ScalarValue>, DataFusionError>|
                #[trigger] call_ensures(*state, (asked,), reply) ==> *final(asked) == *asked)
                ==> final(self).accumulators@ == old(self).accumulators@,
    {
        let looked = self.look_at(now, state);
        let ghost context = looked;
        match (&self.peek_config, looked) {
            (Some(config), Some(given)) => {
                (*config.callback).receive(given, &mut self.calls);
            },
            _ => {},
        }
        assert(old(self).hands_on(context));
        Ok(())
    }

    /// Looks at the intermediate results if that is configured and due: the accumulators are asked
    /// in turn with `state`, and the batch of their states is handed to the callback. A look never
    /// fails. The clock decides whether one is due.
    pub fn peek_intermediate_results<S>(&mut self, state: &S) -> (peeked: Result<
        (),
        DataFusionError,
    >) where S: Fn(&mut A) -> Result<Vec<ScalarValue>, DataFusionError>
        requires
            old(self).peek_config matches Some(config) ==> forall|context: PeekContext|
                (*config.callback).accepts(context),
            forall|accumulator: &mut A| call_requires(*state, (accumulator,)),
            forall|accumulator: &mut A, scalars: Vec<ScalarValue>|
                #[trigger] call_ensures(*state, (accumulator,), Ok::<_, DataFusionError>(scalars))
                    ==> all_fit(scalars@),
        ensures
            peeked is Ok,
            final(self).same_but_looked_at(*old(self)),
            exists|now: u128|
                {
                    &&& is_reading(old(self).started, now)
                    &&& final(self).last_peek_time == old(self).last_peek_at(now)
                    &&& !(#[trigger] old(self).peeks_at(now) && old(self).mode.spec_peekable())
                        ==> final(self).accumulators == old(self).accumulators
                    &&& exists|context: Option<PeekContext>|
                        {
                            &&& #[trigger] old(self).hands_on(context)
                            &&& context is None ==> final(self).calls@ == old(self).calls@
                            &&& context matches Some(given) ==> exists|answer: Result<(), DataFusionError>|
                                {
                                    &&& #[trigger] (*old(self).peek_config->0.callback).gives(given, answer)
                                    &&& final(self).calls@ == old(self).calls@.push((given, answer))
                                }
                            &&& !(old(self).peeks_at(now) && old(self).mode.spec_peekable()) ==> context is None
                            &&& old(self).peeks_at(now) && old(self).mode.spec_peekable() ==> exists|
                                states: Seq<Result<Vec<ScalarValue>, DataFusionError>>,
                                made: Result<Batch, AggregateError>,
                            |
                                {
                                    &&& #[trigger] shows(
                                        states,
                                        old(self).accumulators@.len(),
                                        *old(self).schema,
                                        made,
                                    )
                                    &&& forall|i: int|
                                        #![trigger was_asked(states, i)]
                                        #![trigger states[i]]
                                        was_asked(states, i) ==> exists|asked: &mut A|
                                            {
                                                &&& #[trigger] call_ensures(*state, (asked,), states[i])
                                                &&& *asked == old(self).accumulators@[i]
                                                &&& *final(asked) == final(self).accumulators@[i]
                                            }
                                    &&& forall|i: int|
                                        states.len() <= i < old(self).accumulators@.len()
                                            ==> #[trigger] final(self).accumulators@[i]
                                            == old(self).accumulators@[i]
                                    &&& context == old(self).context_of(made)
                                }
                            &&& context matches Some(c) ==> batch_rows(c.intermediate_batch) == 1
                            &&& forall|answer: spec_fn(A) -> (Result<Vec<ScalarValue>, DataFusionError>, A)|
                                (forall|asked: &mut A, reply: Result<Vec<ScalarValue>, DataFusionError>|
                                    #[trigger] call_ensures(*state, (asked,), reply) ==> answer(*asked) == (
                                        reply,
                                        *final(asked),
                                    )) ==> #[trigger] old(self).looks(
                                    now,
                                    answer,
                                    context,
                                    final(self).accumulators@,
                                )
                        }
                },
            (forall|asked: &mut A, reply: Result<Vec<ScalarValue>, DataFusionError>|
                #[trigger] call_ensures(*state, (asked,), reply) ==> *final(asked) == *asked)
                ==> final(self).accumulators@ == old(self).accumulators@,
    {
        let now: u128 = reading(&self.started);
        self.peek_intermediate_results_at(now, state)
    }
}

} // verus!
