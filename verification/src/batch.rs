//! One batch of input, brought to the accumulators.
//!
//! Filters, expressions and accumulators are the caller's, who says in [`BatchCalls`] how each is
//! called. Every accumulator that has expressions and a filter entry of its own makes up one slot.
//! A slot's batch is filtered where it has a filter, its expressions are evaluated in order, the
//! accumulator is measured, fed, and measured again. The first error ends the run.
use crate::columns::{
    batch_rows, column_shape, into_array, value_array, value_column, value_fits, Batch,
    Column,
};
use crate::error::AggregateError;
use crate::mode::AggregateMode;
use crate::prefix::{lemma_up_to, up_to};
use datafusion_common::DataFusionError;
use datafusion_expr::ColumnarValue;
use vstd::prelude::*;

verus! {

/// How filters, expressions and accumulators are called.
pub struct BatchCalls<Filter, Evaluate, Size, Update, Merge> {
    /// Gives the rows of a batch that a filter lets through.
    pub filter: Filter,
    /// Evaluates an expression on a batch.
    pub evaluate: Evaluate,
    /// Measures an accumulator, in bytes.
    pub size: Size,
    /// Updates an accumulator with the values of its expressions.
    pub update_batch: Update,
    /// Merges the values of its expressions, which are partial states, into an accumulator.
    pub merge_batch: Merge,
}

/// How an accumulator took its values.
pub struct Feeding {
    /// Its size before.
    pub size_before: usize,
    /// Whether it took them.
    pub reply: Result<(), DataFusionError>,
    /// Its size after.
    pub size_after: usize,
}

/// What happened in one slot.
pub struct SlotRun {
    /// The batch that the slot's filter left, where the slot has a filter.
    pub filter: Option<Result<Batch, DataFusionError>>,
    /// What the expressions came to, up to the first error.
    pub columns: Seq<Result<Column, DataFusionError>>,
    /// How the accumulator took the columns, where all expressions came to one.
    pub feeding: Option<Feeding>,
}

/// By how much a size went up; none where it went down.
pub open spec fn growth(before: int, after: int) -> int {
    if after > before {
        after - before
    } else {
        0
    }
}

/// Whether no reply is an error.
pub open spec fn all_ok(columns: Seq<Result<Column, DataFusionError>>) -> bool {
    forall|j: int| 0 <= j < columns.len() ==> (#[trigger] columns[j]) is Ok
}

impl SlotRun {
    /// The batch on which the slot's expressions are evaluated.
    pub open spec fn current(self, batch: Batch) -> Batch {
        match self.filter {
            Some(Ok(filtered)) => filtered,
            _ => batch,
        }
    }

    /// The values of the slot's expressions.
    pub open spec fn values(self) -> Seq<Column> {
        self.columns.map_values(|column: Result<Column, DataFusionError>| column->Ok_0)
    }

    /// Whether the slot went as it has to: a filter is applied if and only if there is one, the
    /// expressions are evaluated unless it fails, up to the first error, and the accumulator is
    /// fed if and only if there was none.
    pub open spec fn is_complete(self, filtered: bool, expressions: nat) -> bool {
        &&& self.filter is Some <==> filtered
        &&& self.columns.len() <= expressions
        &&& if self.filter matches Some(Err(_)) {
            self.columns.len() == 0 && self.feeding is None
        } else {
            &&& self.feeding is Some ==> self.columns.len() == expressions && all_ok(self.columns)
            &&& self.feeding is None ==> {
                &&& self.columns.len() > 0
                &&& all_ok(self.columns.drop_last())
                &&& self.columns.last() is Err
            }
        }
    }

    /// The error that ends the run in this slot, where one does.
    pub open spec fn error(self) -> Option<DataFusionError> {
        match self.filter {
            Some(Err(e)) => Some(e),
            _ => match self.feeding {
                None => Some(self.columns.last()->Err_0),
                Some(feeding) => match feeding.reply {
                    Ok(_) => None,
                    Err(e) => Some(e),
                },
            },
        }
    }

    /// The bytes by which the slot's accumulator grew.
    pub open spec fn grown(self) -> int {
        match self.feeding {
            Some(feeding) => growth(feeding.size_before as int, feeding.size_after as int),
            None => 0,
        }
    }
}

/// The bytes by which the accumulators of the first `n` slots grew.
pub open spec fn total_growth(slots: Seq<SlotRun>, n: nat) -> int
    decreases n,
{
    if n == 0 {
        0
    } else {
        total_growth(slots, (n - 1) as nat) + slots[n - 1].grown()
    }
}

/// The smaller of two numbers.
pub open spec fn min(a: nat, b: nat) -> nat {
    if a <= b {
        a
    } else {
        b
    }
}

/// The number of slots: as many as there are accumulators with expressions and a filter entry.
pub open spec fn slot_count(accumulators: nat, expressions: nat, filters: nat) -> nat {
    min(accumulators, min(expressions, filters))
}

/// Whether a run through `count` slots that went like `slots` comes to `result`: to the sum of
/// the growth where no slot had an error, and to the first error otherwise. There is no result
/// once the sum, which counts the growth of an accumulator that turned its values down too, does
/// not fit a `usize`.
pub open spec fn comes_to(
    slots: Seq<SlotRun>,
    count: nat,
    result: Option<Result<usize, AggregateError>>,
) -> bool {
    &&& slots.len() <= count
    &&& forall|i: int| 0 <= i < slots.len() - 1 ==> (#[trigger] slots[i]).error() is None
    &&& forall|i: int|
        0 <= i < slots.len() ==> #[trigger] total_growth(slots, i as nat) <= usize::MAX
    &&& match result {
        Some(Ok(total)) => {
            &&& slots.len() == count
            &&& slots.len() > 0 ==> slots.last().error() is None
            &&& total == total_growth(slots, slots.len())
        },
        Some(Err(e)) => {
            &&& slots.len() > 0
            &&& slots.last().error() is Some
            &&& e == AggregateError::DataFusion(slots.last().error()->0)
            &&& total_growth(slots, slots.len()) <= usize::MAX
        },
        None => slots.len() > 0 && total_growth(slots, slots.len()) > usize::MAX,
    }
}

/// What an expression's `reply` comes to on a batch of `rows` rows: the column, or the error of
/// the expression or of the conversion.
pub open spec fn reply_column(
    reply: Result<ColumnarValue, DataFusionError>,
    rows: nat,
) -> Result<Column, DataFusionError> {
    match reply {
        Ok(value) => value_column(value, rows),
        Err(e) => Err(e),
    }
}

/// Whether `column` is what an expression's `reply` comes to on a batch of `rows` rows: a column
/// that it holds as it is, and a scalar in as many rows.
pub open spec fn becomes(
    reply: Result<ColumnarValue, DataFusionError>,
    rows: nat,
    column: Result<Column, DataFusionError>,
) -> bool {
    &&& column == reply_column(reply, rows)
    &&& reply matches Ok(value) ==> match value_array(value) {
        Some(held) => column == Ok::<_, DataFusionError>(held),
        None => column matches Ok(c) ==> column_shape(c).rows == rows,
    }
}

/// Filters, expressions and accumulators whose answers are functions of what they are given.
#[verifier::reject_recursive_types(A)]
#[verifier::reject_recursive_types(X)]
pub struct BatchModel<A, X> {
    /// The rows of a batch that a filter lets through.
    pub filter: spec_fn(Batch, X) -> Result<Batch, DataFusionError>,
    /// What an expression comes to on a batch.
    pub evaluate: spec_fn(X, Batch) -> Result<ColumnarValue, DataFusionError>,
    /// The size of an accumulator.
    pub size: spec_fn(A) -> usize,
    /// What an accumulator answers when it is updated, and what it is after that.
    pub update_batch: spec_fn(A, Seq<Column>) -> (Result<(), DataFusionError>, A),
    /// What an accumulator answers when it is merged with partial states, and what it is after
    /// that.
    pub merge_batch: spec_fn(A, Seq<Column>) -> (Result<(), DataFusionError>, A),
}

impl<A, X> BatchModel<A, X> {
    /// What the expressions come to on a batch, up to the first error.
    pub open spec fn columns(self, expressions: Seq<X>, batch: Batch) -> Seq<
        Result<Column, DataFusionError>,
    > {
        up_to(
            |j: int| reply_column((self.evaluate)(expressions[j], batch), batch_rows(batch)),
            |columns: Seq<Result<Column, DataFusionError>>| columns.last() is Err,
            expressions.len(),
        )
    }

    /// How a slot goes up to the point where its accumulator is fed.
    pub open spec fn before_feeding(
        self,
        batch: Batch,
        expressions: Seq<X>,
        filter: Option<X>,
    ) -> SlotRun {
        let filtered = SlotRun {
            filter: match filter {
                Some(predicate) => Some((self.filter)(batch, predicate)),
                None => None,
            },
            columns: Seq::empty(),
            feeding: None,
        };
        if filtered.filter matches Some(Err(_)) {
            filtered
        } else {
            SlotRun { columns: self.columns(expressions, filtered.current(batch)), ..filtered }
        }
    }

    /// How a slot goes, and what its accumulator is after that.
    pub open spec fn slot(
        self,
        merges: bool,
        batch: Batch,
        expressions: Seq<X>,
        filter: Option<X>,
        accumulator: A,
    ) -> (SlotRun, A) {
        let unfed = self.before_feeding(batch, expressions, filter);
        if unfed.filter matches Some(Err(_)) {
            (unfed, accumulator)
        } else if !all_ok(unfed.columns) {
            (unfed, accumulator)
        } else {
            let (reply, after) = if merges {
                (self.merge_batch)(accumulator, unfed.values())
            } else {
                (self.update_batch)(accumulator, unfed.values())
            };
            let feeding = Feeding {
                size_before: (self.size)(accumulator),
                reply,
                size_after: (self.size)(after),
            };
            (SlotRun { feeding: Some(feeding), ..unfed }, after)
        }
    }

    /// How the slots go, up to the one that ends the run.
    pub open spec fn slots(
        self,
        merges: bool,
        batch: Batch,
        accumulators: Seq<A>,
        expressions: Seq<Vec<X>>,
        filters: Seq<Option<X>>,
    ) -> Seq<SlotRun> {
        up_to(
            |i: int|
                self.slot(merges, batch, expressions[i]@, filters[i], accumulators[i]).0,
            |slots: Seq<SlotRun>| ends_run(slots),
            slot_count(accumulators.len(), expressions.len(), filters.len()),
        )
    }

    /// What becomes of the accumulators: those that were reached are as their slot leaves them, the
    /// others as they were.
    pub open spec fn accumulators_after(
        self,
        mode: AggregateMode,
        batch: Batch,
        accumulators: Seq<A>,
        expressions: Seq<Vec<X>>,
        filters: Seq<Option<X>>,
    ) -> Seq<A> {
        let merges = mode.spec_merges();
        let reached = self.slots(merges, batch, accumulators, expressions, filters).len();
        Seq::new(
            accumulators.len(),
            |i: int|
                if i < reached {
                    self.slot(merges, batch, expressions[i]@, filters[i], accumulators[i]).1
                } else {
                    accumulators[i]
                },
        )
    }

    /// Whether a batch comes to `grown` and leaves the accumulators as `after`.
    pub open spec fn aggregates(
        self,
        mode: AggregateMode,
        batch: Batch,
        accumulators: Seq<A>,
        expressions: Seq<Vec<X>>,
        filters: Seq<Option<X>>,
        grown: Option<Result<usize, AggregateError>>,
        after: Seq<A>,
    ) -> bool {
        &&& comes_to(
            self.slots(mode.spec_merges(), batch, accumulators, expressions, filters),
            slot_count(accumulators.len(), expressions.len(), filters.len()),
            grown,
        )
        &&& after == self.accumulators_after(mode, batch, accumulators, expressions, filters)
    }
}

/// Whether the last of these slots ends the run: with an error, or because the growth does not fit
/// a `usize`.
pub open spec fn ends_run(slots: Seq<SlotRun>) -> bool {
    slots.last().error() is Some || total_growth(slots, slots.len()) > usize::MAX
}

impl<Filter, Evaluate, Size, Update, Merge> BatchCalls<Filter, Evaluate, Size, Update, Merge> {
    /// Whether each call may be made on any of its arguments, and the values that expressions come
    /// to can be turned into columns as long as the batch.
    pub open spec fn callable<A, X>(self) -> bool where
        Filter: Fn(&Batch, &X) -> Result<Batch, DataFusionError>,
        Evaluate: Fn(&X, &Batch) -> Result<ColumnarValue, DataFusionError>,
        Size: Fn(&A) -> usize,
        Update: Fn(&mut A, &Vec<Column>) -> Result<(), DataFusionError>,
        Merge: Fn(&mut A, &Vec<Column>) -> Result<(), DataFusionError>,
     {
        &&& forall|batch: &Batch, predicate: &X|
            call_requires(self.filter, (batch, predicate))
        &&& forall|expression: &X, batch: &Batch|
            call_requires(self.evaluate, (expression, batch))
        &&& forall|expression: &X, batch: &Batch, value: ColumnarValue|
            #[trigger] call_ensures(
                self.evaluate,
                (expression, batch),
                Ok::<_, DataFusionError>(value),
            ) ==> value_fits(value, batch_rows(*batch))
        &&& forall|accumulator: &A| call_requires(self.size, (accumulator,))
        &&& forall|accumulator: &mut A, values: &Vec<Column>|
            call_requires(self.update_batch, (accumulator, values))
        &&& forall|accumulator: &mut A, values: &Vec<Column>|
            call_requires(self.merge_batch, (accumulator, values))
    }

    /// Whether filters, expressions and sizes are as the model says. What accumulators answer when
    /// they are fed is not looked at here.
    pub open spec fn reads_like<A, X>(self, model: BatchModel<A, X>) -> bool where
        Filter: Fn(&Batch, &X) -> Result<Batch, DataFusionError>,
        Evaluate: Fn(&X, &Batch) -> Result<ColumnarValue, DataFusionError>,
        Size: Fn(&A) -> usize,
     {
        &&& forall|batch: &Batch, predicate: &X, reply: Result<Batch, DataFusionError>|
            #[trigger] call_ensures(self.filter, (batch, predicate), reply) ==> reply == (
            model.filter)(*batch, *predicate)
        &&& forall|expression: &X, batch: &Batch, reply: Result<ColumnarValue, DataFusionError>|
            #[trigger] call_ensures(self.evaluate, (expression, batch), reply) ==> reply == (
            model.evaluate)(*expression, *batch)
        &&& forall|accumulator: &A, bytes: usize|
            #[trigger] call_ensures(self.size, (accumulator,), bytes) ==> bytes == (model.size)(
                *accumulator,
            )
    }

    /// Whether one slot went like `slot` by what the calls answered: the filter was given the
    /// batch, each expression the filtered batch, and the accumulator, which was `before` and is
    /// `after`, was measured as either. What it answered when it was fed is not looked at here.
    pub open spec fn answered<A, X>(
        self,
        batch: Batch,
        expressions: Seq<X>,
        filter: Option<X>,
        before: A,
        after: A,
        slot: SlotRun,
    ) -> bool where
        Filter: Fn(&Batch, &X) -> Result<Batch, DataFusionError>,
        Evaluate: Fn(&X, &Batch) -> Result<ColumnarValue, DataFusionError>,
        Size: Fn(&A) -> usize,
     {
        &&& slot.is_complete(filter is Some, expressions.len())
        &&& slot.filter matches Some(reply) ==> call_ensures(
            self.filter,
            (&batch, &filter->0),
            reply,
        )
        &&& forall|j: int|
            0 <= j < slot.columns.len() ==> self.evaluates_to(
                expressions[j],
                slot.current(batch),
                #[trigger] slot.columns[j],
            )
        &&& match slot.feeding {
            Some(feeding) => {
                &&& call_ensures(self.size, (&before,), feeding.size_before)
                &&& call_ensures(self.size, (&after,), feeding.size_after)
            },
            None => after == before,
        }
    }

    /// Whether `column` may be what `expression` comes to on `batch`.
    pub open spec fn evaluates_to<X>(
        self,
        expression: X,
        batch: Batch,
        column: Result<Column, DataFusionError>,
    ) -> bool where Evaluate: Fn(&X, &Batch) -> Result<ColumnarValue, DataFusionError> {
        exists|reply: Result<ColumnarValue, DataFusionError>|
            {
                &&& #[trigger] call_ensures(self.evaluate, (&expression, &batch), reply)
                &&& becomes(reply, batch_rows(batch), column)
            }
    }
}

/// The columns that the expressions come to on a batch, or the first error.
fn evaluate_all<X, Filter, Evaluate, Size, Update, Merge>(
    batch: &Batch,
    expressions: &Vec<X>,
    calls: &BatchCalls<Filter, Evaluate, Size, Update, Merge>,
) -> (evaluated: (Result<Vec<Column>, DataFusionError>, Ghost<Seq<Result<Column, DataFusionError>>>)) where
    Evaluate: Fn(&X, &Batch) -> Result<ColumnarValue, DataFusionError>,

    requires
        forall|expression: &X, batch: &Batch|
            call_requires(calls.evaluate, (expression, batch)),
        forall|expression: &X, batch: &Batch, value: ColumnarValue|
            #[trigger] call_ensures(
                calls.evaluate,
                (expression, batch),
                Ok::<_, DataFusionError>(value),
            ) ==> value_fits(value, batch_rows(*batch)),
    ensures
        forall|j: int|
            0 <= j < evaluated.1@.len() ==> calls.evaluates_to(
                expressions@[j],
                *batch,
                #[trigger] evaluated.1@[j],
            ),
        match evaluated.0 {
            Ok(columns) => {
                &&& evaluated.1@.len() == expressions@.len()
                &&& evaluated.1@ == columns@.map_values(
                    |column: Column| Ok::<_, DataFusionError>(column),
                )
            },
            Err(e) => {
                &&& 0 < evaluated.1@.len() <= expressions@.len()
                &&& all_ok(evaluated.1@.drop_last())
                &&& evaluated.1@.last() == Err::<Column, _>(e)
            },
        },
{
    let rows: usize = batch.rows();
    let mut columns: Vec<Column> = Vec::new();
    let ghost mut replies: Seq<Result<Column, DataFusionError>> = Seq::empty();
    for j in 0..expressions.len()
        invariant
            rows == batch_rows(*batch),
            replies.len() == j,
            replies =~= columns@.map_values(|column: Column| Ok::<_, DataFusionError>(column)),
            forall|expression: &X, batch: &Batch|
                call_requires(calls.evaluate, (expression, batch)),
            forall|expression: &X, batch: &Batch, value: ColumnarValue|
                #[trigger] call_ensures(
                    calls.evaluate,
                    (expression, batch),
                    Ok::<_, DataFusionError>(value),
                ) ==> value_fits(value, batch_rows(*batch)),
            forall|k: int|
                0 <= k < j ==> calls.evaluates_to(expressions@[k], *batch, #[trigger] replies[k]),
    {
        let reply = (calls.evaluate)(&expressions[j], batch);
        let ghost given = reply;
        let column = match reply {
            Ok(value) => into_array(value, rows),
            Err(e) => Err(e),
        };
        proof {
            assert(call_ensures(calls.evaluate, (&expressions@[j as int], batch), given));
            assert(becomes(given, batch_rows(*batch), column));
            assert(calls.evaluates_to(expressions@[j as int], *batch, column));
            replies = replies.push(column);
        }
        match column {
            Ok(c) => columns.push(c),
            Err(e) => {
                assert(replies.drop_last() =~= columns@.map_values(
                    |column: Column| Ok::<_, DataFusionError>(column),
                ));
                return (Err(e), Ghost(replies));
            },
        }
    }
    (Ok(columns), Ghost(replies))
}

/// Brings a batch to one accumulator: the bytes by which it grew, and how it went. Nothing is
/// added where the accumulator was not fed.
fn aggregate_slot<A, X, Filter, Evaluate, Size, Update, Merge>(
    mode: &AggregateMode,
    batch: &Batch,
    accumulator: &mut A,
    expressions: &Vec<X>,
    filter: &Option<X>,
    calls: &BatchCalls<Filter, Evaluate, Size, Update, Merge>,
) -> (aggregated: (usize, Result<(), DataFusionError>, Ghost<SlotRun>)) where
    Filter: Fn(&Batch, &X) -> Result<Batch, DataFusionError>,
    Evaluate: Fn(&X, &Batch) -> Result<ColumnarValue, DataFusionError>,
    Size: Fn(&A) -> usize,
    Update: Fn(&mut A, &Vec<Column>) -> Result<(), DataFusionError>,
    Merge: Fn(&mut A, &Vec<Column>) -> Result<(), DataFusionError>,

    requires
        calls.callable::<A, X>(),
    ensures
        calls.answered(
            *batch,
            expressions@,
            *filter,
            *old(accumulator),
            *final(accumulator),
            aggregated.2@,
        ),
        aggregated.2@.feeding matches Some(feeding) ==> if mode.spec_merges() {
            exists|fed: &mut A, values: Vec<Column>|
                {
                    &&& #[trigger] call_ensures(calls.merge_batch, (fed, &values), feeding.reply)
                    &&& *fed == *old(accumulator)
                    &&& *final(fed) == *final(accumulator)
                    &&& values@ == aggregated.2@.values()
                }
        } else {
            exists|fed: &mut A, values: Vec<Column>|
                {
                    &&& #[trigger] call_ensures(calls.update_batch, (fed, &values), feeding.reply)
                    &&& *fed == *old(accumulator)
                    &&& *final(fed) == *final(accumulator)
                    &&& values@ == aggregated.2@.values()
                }
        },
        aggregated.0 == aggregated.2@.grown(),
        match aggregated.1 {
            Ok(_) => aggregated.2@.error() is None,
            Err(e) => aggregated.2@.error() == Some(e),
        },
{
    let filtered: Option<Batch>;
    let ghost mut slot = SlotRun { filter: None, columns: Seq::empty(), feeding: None };
    match filter {
        Some(predicate) => {
            let reply = (calls.filter)(batch, predicate);
            proof {
                slot = SlotRun { filter: Some(reply), ..slot };
            }
            match reply {
                Ok(rows) => {
                    filtered = Some(rows);
                },
                Err(e) => {
                    return (0, Err(e), Ghost(slot));
                },
            }
        },
        None => {
            filtered = None;
        },
    }
    let current = match &filtered {
        Some(rows) => rows,
        None => batch,
    };
    assert(*current == slot.current(*batch));
    let (evaluated, Ghost(columns)) = evaluate_all(current, expressions, calls);
    proof {
        slot = SlotRun { columns, ..slot };
    }
    let values = match evaluated {
        Ok(values) => values,
        Err(e) => {
            return (0, Err(e), Ghost(slot));
        },
    };
    assert(slot.values() =~= values@);
    let size_before: usize = (calls.size)(&*accumulator);
    let reply = if mode.merges() {
        (calls.merge_batch)(accumulator, &values)
    } else {
        (calls.update_batch)(accumulator, &values)
    };
    let size_after: usize = (calls.size)(&*accumulator);
    proof {
        slot = SlotRun { feeding: Some(Feeding { size_before, reply, size_after }), ..slot };
    }
    (size_after.saturating_sub(size_before), reply, Ghost(slot))
}

/// Brings a batch to the accumulators slot by slot.
fn aggregate_slots<A, X, Filter, Evaluate, Size, Update, Merge>(
    mode: &AggregateMode,
    batch: &Batch,
    accumulators: &mut Vec<A>,
    expressions: &Vec<Vec<X>>,
    filters: &Vec<Option<X>>,
    calls: &BatchCalls<Filter, Evaluate, Size, Update, Merge>,
) -> (aggregated: (Option<Result<usize, AggregateError>>, Ghost<Seq<SlotRun>>)) where
    Filter: Fn(&Batch, &X) -> Result<Batch, DataFusionError>,
    Evaluate: Fn(&X, &Batch) -> Result<ColumnarValue, DataFusionError>,
    Size: Fn(&A) -> usize,
    Update: Fn(&mut A, &Vec<Column>) -> Result<(), DataFusionError>,
    Merge: Fn(&mut A, &Vec<Column>) -> Result<(), DataFusionError>,

    requires
        calls.callable::<A, X>(),
    ensures
        final(accumulators)@.len() == old(accumulators)@.len(),
        comes_to(
            aggregated.1@,
            slot_count(old(accumulators)@.len(), expressions@.len(), filters@.len()),
            aggregated.0,
        ),
        forall|i: int|
            0 <= i < aggregated.1@.len() ==> calls.answered(
                *batch,
                expressions@[i]@,
                filters@[i],
                old(accumulators)@[i],
                final(accumulators)@[i],
                #[trigger] aggregated.1@[i],
            ),
        forall|i: int|
            #![trigger aggregated.1@[i]]
            0 <= i < aggregated.1@.len() && aggregated.1@[i].feeding is Some
                && mode.spec_merges() ==> exists|fed: &mut A, values: Vec<Column>|
                {
                    &&& #[trigger] call_ensures(
                        calls.merge_batch,
                        (fed, &values),
                        aggregated.1@[i].feeding->0.reply,
                    )
                    &&& *fed == old(accumulators)@[i]
                    &&& *final(fed) == final(accumulators)@[i]
                    &&& values@ == aggregated.1@[i].values()
                },
        forall|i: int|
            #![trigger aggregated.1@[i]]
            0 <= i < aggregated.1@.len() && aggregated.1@[i].feeding is Some
                && !mode.spec_merges() ==> exists|fed: &mut A, values: Vec<Column>|
                {
                    &&& #[trigger] call_ensures(
                        calls.update_batch,
                        (fed, &values),
                        aggregated.1@[i].feeding->0.reply,
                    )
                    &&& *fed == old(accumulators)@[i]
                    &&& *final(fed) == final(accumulators)@[i]
                    &&& values@ == aggregated.1@[i].values()
                },
        forall|i: int|
            aggregated.1@.len() <= i < old(accumulators)@.len()
                ==> #[trigger] final(accumulators)@[i] == old(accumulators)@[i],
{
    let ghost before = accumulators@;
    let ghost mut slots: Seq<SlotRun> = Seq::empty();
    let mut allocated: usize = 0;
    let mut i: usize = 0;
    while i < accumulators.len() && i < expressions.len() && i < filters.len()
        invariant
            calls.callable::<A, X>(),
            before == old(accumulators)@,
            accumulators@.len() == before.len(),
            i <= before.len(),
            i <= expressions@.len(),
            i <= filters@.len(),
            slots.len() == i,
            allocated == total_growth(slots, i as nat),
            forall|k: int| 0 <= k < i ==> (#[trigger] slots[k]).error() is None,
            forall|k: int|
                0 <= k < i ==> #[trigger] total_growth(slots, k as nat) <= usize::MAX,
            forall|k: int|
                0 <= k < i ==> calls.answered(
                    *batch,
                    expressions@[k]@,
                    filters@[k],
                    before[k],
                    accumulators@[k],
                    #[trigger] slots[k],
                ),
            forall|k: int|
                #![trigger slots[k]]
                0 <= k < i && slots[k].feeding is Some && mode.spec_merges() ==> exists|
                    fed: &mut A,
                    values: Vec<Column>,
                |
                    {
                        &&& #[trigger] call_ensures(
                            calls.merge_batch,
                            (fed, &values),
                            slots[k].feeding->0.reply,
                        )
                        &&& *fed == before[k]
                        &&& *final(fed) == accumulators@[k]
                        &&& values@ == slots[k].values()
                    },
            forall|k: int|
                #![trigger slots[k]]
                0 <= k < i && slots[k].feeding is Some && !mode.spec_merges() ==> exists|
                    fed: &mut A,
                    values: Vec<Column>,
                |
                    {
                        &&& #[trigger] call_ensures(
                            calls.update_batch,
                            (fed, &values),
                            slots[k].feeding->0.reply,
                        )
                        &&& *fed == before[k]
                        &&& *final(fed) == accumulators@[k]
                        &&& values@ == slots[k].values()
                    },
            forall|k: int| i <= k < before.len() ==> #[trigger] accumulators@[k] == before[k],
        decreases before.len() - i,
    {
        let (bytes, reply, Ghost(slot)) = aggregate_slot(
            mode,
            batch,
            &mut accumulators[i],
            &expressions[i],
            &filters[i],
            calls,
        );
        proof {
            let earlier = slots;
            slots = slots.push(slot);
            lemma_total_growth_prefix(earlier, slots, i as nat);
            assert forall|k: int| 0 <= k <= i implies #[trigger] total_growth(slots, k as nat)
                <= usize::MAX by {
                lemma_total_growth_prefix(earlier, slots, k as nat);
                assert(total_growth(earlier, k as nat) <= usize::MAX);
            }
        }
        if bytes > usize::MAX - allocated {
            return (None, Ghost(slots));
        }
        allocated = allocated + bytes;
        match reply {
            Ok(_) => {},
            Err(e) => {
                return (Some(Err(AggregateError::DataFusion(e))), Ghost(slots));
            },
        }
        i = i + 1;
    }
    (Some(Ok(allocated)), Ghost(slots))
}

/// Brings a batch to the accumulators, and gives the bytes by which they grew. Each accumulator
/// that has expressions and a filter entry is fed the values of its expressions on the rows that
/// its filter lets through: it is merged with them where partial states come in, and updated
/// otherwise. The first error ends the run; the accumulators before it stay fed. There is no
/// result where the bytes do not fit a `usize`. Where the answers of the calls are functions of
/// what they are given, so is the outcome: [`BatchModel::aggregates`] says which.
pub fn aggregate_batch<A, X, Filter, Evaluate, Size, Update, Merge>(
    mode: &AggregateMode,
    batch: Batch,
    accumulators: &mut Vec<A>,
    expressions: &Vec<Vec<X>>,
    filters: &Vec<Option<X>>,
    calls: &BatchCalls<Filter, Evaluate, Size, Update, Merge>,
) -> (grown: Option<Result<usize, AggregateError>>) where
    Filter: Fn(&Batch, &X) -> Result<Batch, DataFusionError>,
    Evaluate: Fn(&X, &Batch) -> Result<ColumnarValue, DataFusionError>,
    Size: Fn(&A) -> usize,
    Update: Fn(&mut A, &Vec<Column>) -> Result<(), DataFusionError>,
    Merge: Fn(&mut A, &Vec<Column>) -> Result<(), DataFusionError>,

    requires
        calls.callable::<A, X>(),
    ensures
        final(accumulators)@.len() == old(accumulators)@.len(),
        exists|slots: Seq<SlotRun>|
            {
                &&& #[trigger] comes_to(
                    slots,
                    slot_count(old(accumulators)@.len(), expressions@.len(), filters@.len()),
                    grown,
                )
                &&& forall|i: int|
                    0 <= i < slots.len() ==> calls.answered(
                        batch,
                        expressions@[i]@,
                        filters@[i],
                        old(accumulators)@[i],
                        final(accumulators)@[i],
                        #[trigger] slots[i],
                    )
                &&& forall|i: int|
                    #![trigger slots[i]]
                    0 <= i < slots.len() && slots[i].feeding is Some && mode.spec_merges()
                        ==> exists|fed: &mut A, values: Vec<Column>|
                        {
                            &&& #[trigger] call_ensures(
                                calls.merge_batch,
                                (fed, &values),
                                slots[i].feeding->0.reply,
                            )
                            &&& *fed == old(accumulators)@[i]
                            &&& *final(fed) == final(accumulators)@[i]
                            &&& values@ == slots[i].values()
                        }
                &&& forall|i: int|
                    #![trigger slots[i]]
                    0 <= i < slots.len() && slots[i].feeding is Some && !mode.spec_merges()
                        ==> exists|fed: &mut A, values: Vec<Column>|
                        {
                            &&& #[trigger] call_ensures(
                                calls.update_batch,
                                (fed, &values),
                                slots[i].feeding->0.reply,
                            )
                            &&& *fed == old(accumulators)@[i]
                            &&& *final(fed) == final(accumulators)@[i]
                            &&& values@ == slots[i].values()
                        }
                &&& forall|i: int|
                    slots.len() <= i < old(accumulators)@.len()
                        ==> #[trigger] final(accumulators)@[i] == old(accumulators)@[i]
            },
        forall|model: BatchModel<A, X>|
            calls.reads_like(model) && (forall|
                fed: &mut A,
                values: &Vec<Column>,
                reply: Result<(), DataFusionError>,
            |
                #[trigger] call_ensures(calls.update_batch, (fed, values), reply) ==> (
                model.update_batch)(*fed, values@) == (reply, *final(fed))) && (forall|
                fed: &mut A,
                values: &Vec<Column>,
                reply: Result<(), DataFusionError>,
            |
                #[trigger] call_ensures(calls.merge_batch, (fed, values), reply) ==> (
                model.merge_batch)(*fed, values@) == (reply, *final(fed))) ==> #[trigger] model.aggregates(
                *mode,
                batch,
                old(accumulators)@,
                expressions@,
                filters@,
                grown,
                final(accumulators)@,
            ),
{
    let (grown, Ghost(slots)) = aggregate_slots(
        mode,
        &batch,
        accumulators,
        expressions,
        filters,
        calls,
    );
    proof {
        let count = slot_count(old(accumulators)@.len(), expressions@.len(), filters@.len());
        assert(comes_to(slots, count, grown));
        assert forall|model: BatchModel<A, X>|
            calls.reads_like(model) && (forall|
                fed: &mut A,
                values: &Vec<Column>,
                reply: Result<(), DataFusionError>,
            |
                #[trigger] call_ensures(calls.update_batch, (fed, values), reply) ==> (
                model.update_batch)(*fed, values@) == (reply, *final(fed))) && (forall|
                fed: &mut A,
                values: &Vec<Column>,
                reply: Result<(), DataFusionError>,
            |
                #[trigger] call_ensures(calls.merge_batch, (fed, values), reply) ==> (
                model.merge_batch)(*fed, values@) == (reply, *final(fed))) implies #[trigger] model.aggregates(
            *mode,
            batch,
            old(accumulators)@,
            expressions@,
            filters@,
            grown,
            accumulators@,
        ) by {
            let merges = mode.spec_merges();
            assert forall|i: int| 0 <= i < slots.len() implies (
                #[trigger] slots[i],
                accumulators@[i],
            ) == model.slot(
                merges,
                batch,
                expressions@[i]@,
                filters@[i],
                old(accumulators)@[i],
            ) by {
                if slots[i].feeding is Some {
                    let fed = if merges {
                        (model.merge_batch)(old(accumulators)@[i], slots[i].values())
                    } else {
                        (model.update_batch)(old(accumulators)@[i], slots[i].values())
                    };
                    assert(fed == (slots[i].feeding->0.reply, accumulators@[i]));
                }
                lemma_slot_is_modelled(
                    *calls,
                    model,
                    merges,
                    batch,
                    expressions@[i]@,
                    filters@[i],
                    old(accumulators)@[i],
                    accumulators@[i],
                    slots[i],
                );
            }
            lemma_run_is_modelled(
                model,
                merges,
                batch,
                old(accumulators)@,
                expressions@,
                filters@,
                slots,
                grown,
            );
            let after = model.accumulators_after(
                *mode,
                batch,
                old(accumulators)@,
                expressions@,
                filters@,
            );
            assert forall|i: int| 0 <= i < after.len() implies after[i] == accumulators@[i] by {
                if i < slots.len() {
                    assert((slots[i], accumulators@[i]) == model.slot(
                        merges,
                        batch,
                        expressions@[i]@,
                        filters@[i],
                        old(accumulators)@[i],
                    ));
                }
            }
            assert(accumulators@ =~= after);
        }
    }
    grown
}

/// A slot that went by the answers of the calls goes as a model of them says.
proof fn lemma_slot_is_modelled<A, X, Filter, Evaluate, Size, Update, Merge>(
    calls: BatchCalls<Filter, Evaluate, Size, Update, Merge>,
    model: BatchModel<A, X>,
    merges: bool,
    batch: Batch,
    expressions: Seq<X>,
    filter: Option<X>,
    before: A,
    after: A,
    slot: SlotRun,
) where
    Filter: Fn(&Batch, &X) -> Result<Batch, DataFusionError>,
    Evaluate: Fn(&X, &Batch) -> Result<ColumnarValue, DataFusionError>,
    Size: Fn(&A) -> usize,

    requires
        calls.reads_like(model),
        calls.answered(batch, expressions, filter, before, after, slot),
        slot.feeding matches Some(feeding) ==> (feeding.reply, after) == (if merges {
            (model.merge_batch)(before, slot.values())
        } else {
            (model.update_batch)(before, slot.values())
        }),
    ensures
        (slot, after) == model.slot(merges, batch, expressions, filter, before),
{
    let current = slot.current(batch);
    if slot.filter matches Some(Err(_)) {
        assert(slot.columns =~= Seq::empty());
    } else {
        let ends = |columns: Seq<Result<Column, DataFusionError>>| columns.last() is Err;
        assert forall|j: int| 0 <= j < slot.columns.len() implies #[trigger] slot.columns[j]
            == reply_column((model.evaluate)(expressions[j], current), batch_rows(current)) by {
            assert(calls.evaluates_to(expressions[j], current, slot.columns[j]));
        }
        assert forall|k: int| 0 < k < slot.columns.len() implies !ends(
            #[trigger] slot.columns.take(k),
        ) by {
            assert(slot.columns.take(k).last() == slot.columns[k - 1]);
            if slot.feeding is None {
                assert(slot.columns.drop_last()[k - 1] is Ok);
            }
        }
        lemma_up_to(
            |j: int| reply_column((model.evaluate)(expressions[j], current), batch_rows(current)),
            ends,
            expressions.len(),
            slot.columns,
        );
        assert(model.before_feeding(batch, expressions, filter).columns == slot.columns);
        if slot.feeding is None {
            assert(slot.columns[slot.columns.len() - 1] is Err);
        }
    }
}

/// Slots that go one by one as a model says go together as it says.
proof fn lemma_run_is_modelled<A, X>(
    model: BatchModel<A, X>,
    merges: bool,
    batch: Batch,
    accumulators: Seq<A>,
    expressions: Seq<Vec<X>>,
    filters: Seq<Option<X>>,
    slots: Seq<SlotRun>,
    grown: Option<Result<usize, AggregateError>>,
)
    requires
        comes_to(
            slots,
            slot_count(accumulators.len(), expressions.len(), filters.len()),
            grown,
        ),
        forall|i: int|
            0 <= i < slots.len() ==> #[trigger] slots[i] == model.slot(
                merges,
                batch,
                expressions[i]@,
                filters[i],
                accumulators[i],
            ).0,
    ensures
        model.slots(merges, batch, accumulators, expressions, filters) == slots,
{
    let ends = |slots: Seq<SlotRun>| ends_run(slots);
    assert forall|k: int| 0 < k < slots.len() implies !ends(#[trigger] slots.take(k)) by {
        assert(slots.take(k).last() == slots[k - 1]);
        lemma_total_growth_prefix(slots.take(k), slots, k as nat);
        assert(total_growth(slots, k as nat) <= usize::MAX);
    }
    lemma_up_to(
        |i: int| model.slot(merges, batch, expressions[i]@, filters[i], accumulators[i]).0,
        ends,
        slot_count(accumulators.len(), expressions.len(), filters.len()),
        slots,
    );
}

/// The growth over the first `n` slots does not depend on later ones.
proof fn lemma_total_growth_prefix(one: Seq<SlotRun>, other: Seq<SlotRun>, n: nat)
    requires
        n <= one.len(),
        n <= other.len(),
        forall|k: int| 0 <= k < n ==> one[k] == other[k],
    ensures
        total_growth(one, n) == total_growth(other, n),
    decreases n,
{
    if n > 0 {
        lemma_total_growth_prefix(one, other, (n - 1) as nat);
    }
}

} // verus!
