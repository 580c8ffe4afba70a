use std::sync::Arc;

use aggregate_peek::batch::{aggregate_batch, BatchCalls};
use aggregate_peek::columns::{is_plain_value, Batch, Column, MOST_ROWS};
use aggregate_peek::error::AggregateError;
use aggregate_peek::mode::AggregateMode;
use aggregate_peek::no_grouping::filter_expressions;
use arrow::array::{Array, ArrayRef, Int64Array};
use arrow::datatypes::{DataType, Field, Schema};
use arrow::record_batch::RecordBatch;
use datafusion_common::{DataFusionError, ScalarValue};
use datafusion_expr::ColumnarValue;

/// An expression, or a filter, on a batch with one column of numbers.
enum Expr {
    /// The column itself.
    Numbers,
    /// The same number for every row.
    Constant(i64),
    /// The number of rows, for every row.
    Rows,
    /// A scalar that no array can hold.
    Unholdable,
    /// An error.
    Broken(&'static str),
    /// As a filter: the rows above a number.
    Above(i64),
}

/// An accumulator that notes what it was fed.
struct Tally {
    updated: Vec<Vec<Vec<i64>>>,
    merged: Vec<Vec<Vec<i64>>>,
    size: usize,
    size_after: usize,
    refuses: Option<&'static str>,
}

fn tally(size: usize, size_after: usize) -> Tally {
    Tally { updated: vec![], merged: vec![], size, size_after, refuses: None }
}

fn numbers(values: Vec<i64>) -> Batch {
    let schema = Schema::new(vec![Field::new("n", DataType::Int64, false)]);
    let array: ArrayRef = Arc::new(Int64Array::from(values));
    Batch { inner: RecordBatch::try_new(Arc::new(schema), vec![array]).unwrap() }
}

fn values_of(array: &ArrayRef) -> Vec<i64> {
    array.as_any().downcast_ref::<Int64Array>().unwrap().values().to_vec()
}

fn failed(text: &str) -> DataFusionError {
    DataFusionError::Execution(text.to_string())
}

fn filter(batch: &Batch, predicate: &Expr) -> Result<Batch, DataFusionError> {
    match predicate {
        Expr::Above(least) => {
            let kept = values_of(batch.inner.column(0)).into_iter().filter(|n| n > least);
            Ok(numbers(kept.collect()))
        }
        Expr::Broken(text) => Err(failed(text)),
        _ => Ok(batch.clone()),
    }
}

fn evaluate(expression: &Expr, batch: &Batch) -> Result<ColumnarValue, DataFusionError> {
    match expression {
        Expr::Numbers => Ok(ColumnarValue::Array(Arc::clone(batch.inner.column(0)))),
        Expr::Constant(n) => Ok(ColumnarValue::Scalar(ScalarValue::Int64(Some(*n)))),
        Expr::Rows => {
            let rows = batch.inner.num_rows() as i64;
            Ok(ColumnarValue::Scalar(ScalarValue::Int64(Some(rows))))
        }
        Expr::Unholdable => Ok(ColumnarValue::Scalar(ScalarValue::Decimal128(Some(1), 0, 0))),
        Expr::Broken(text) => Err(failed(text)),
        Expr::Above(_) => panic!("a filter was evaluated"),
    }
}

fn size(accumulator: &Tally) -> usize {
    accumulator.size
}

fn taken(accumulator: &mut Tally) -> Result<(), DataFusionError> {
    accumulator.size = accumulator.size_after;
    match accumulator.refuses {
        Some(text) => Err(failed(text)),
        None => Ok(()),
    }
}

fn update_batch(accumulator: &mut Tally, values: &Vec<Column>) -> Result<(), DataFusionError> {
    accumulator.updated.push(values.iter().map(|column| values_of(&column.array)).collect());
    taken(accumulator)
}

fn merge_batch(accumulator: &mut Tally, values: &Vec<Column>) -> Result<(), DataFusionError> {
    accumulator.merged.push(values.iter().map(|column| values_of(&column.array)).collect());
    taken(accumulator)
}

fn run(
    mode: AggregateMode,
    accumulators: &mut Vec<Tally>,
    expressions: Vec<Vec<Expr>>,
    filters: Vec<Option<Expr>>,
) -> Option<Result<usize, AggregateError>> {
    let calls = BatchCalls { filter, evaluate, size, update_batch, merge_batch };
    let batch = numbers(vec![1, 2, 3]);
    aggregate_batch(&mode, batch, accumulators, &expressions, &filters, &calls)
}

fn message(result: Option<Result<usize, AggregateError>>) -> String {
    match result {
        Some(Err(AggregateError::DataFusion(DataFusionError::Execution(text)))) => text,
        _ => panic!("the run did not fail as expected"),
    }
}

fn untouched(accumulator: &Tally) -> bool {
    accumulator.updated.is_empty() && accumulator.merged.is_empty()
}

#[test]
fn run_without_accumulators_grows_by_nothing() {
    let result = run(AggregateMode::Partial, &mut vec![], vec![vec![Expr::Numbers]], vec![None]);
    assert_eq!(result.unwrap().unwrap(), 0);
}

#[test]
fn expressions_are_evaluated_in_order_and_fed() {
    let mut accumulators = vec![tally(100, 140)];
    let expressions = vec![vec![Expr::Numbers, Expr::Constant(8)]];
    let result = run(AggregateMode::Single, &mut accumulators, expressions, vec![None]);
    assert_eq!(result.unwrap().unwrap(), 40);
    assert_eq!(accumulators[0].updated, vec![vec![vec![1, 2, 3], vec![8, 8, 8]]]);
    assert!(accumulators[0].merged.is_empty());
}

#[test]
fn filtered_accumulator_sees_the_filtered_batch_only() {
    let mut accumulators = vec![tally(0, 0), tally(0, 0)];
    let expressions =
        vec![vec![Expr::Numbers, Expr::Rows], vec![Expr::Numbers, Expr::Rows]];
    let filters = vec![Some(Expr::Above(1)), None];
    let result = run(AggregateMode::Partial, &mut accumulators, expressions, filters);
    assert_eq!(result.unwrap().unwrap(), 0);
    assert_eq!(accumulators[0].updated, vec![vec![vec![2, 3], vec![2, 2]]]);
    assert_eq!(accumulators[1].updated, vec![vec![vec![1, 2, 3], vec![3, 3, 3]]]);
}

#[test]
fn filter_may_leave_no_rows() {
    let mut accumulators = vec![tally(0, 1)];
    let expressions = vec![vec![Expr::Numbers, Expr::Constant(4)]];
    let filters = vec![Some(Expr::Above(9))];
    let result = run(AggregateMode::Partial, &mut accumulators, expressions, filters);
    assert_eq!(result.unwrap().unwrap(), 1);
    let nothing: Vec<i64> = vec![];
    assert_eq!(accumulators[0].updated, vec![vec![nothing.clone(), nothing]]);
}

#[test]
fn mode_decides_between_update_and_merge() {
    for (mode, merges) in [
        (AggregateMode::Partial, false),
        (AggregateMode::Single, false),
        (AggregateMode::SinglePartitioned, false),
        (AggregateMode::Final, true),
        (AggregateMode::FinalPartitioned, true),
    ] {
        let mut accumulators = vec![tally(0, 0)];
        assert!(run(mode, &mut accumulators, vec![vec![]], vec![None]).unwrap().is_ok());
        assert_eq!(accumulators[0].merged.len(), usize::from(merges));
        assert_eq!(accumulators[0].updated.len(), usize::from(!merges));
    }
}

#[test]
fn growth_is_summed_and_shrinking_counts_for_nothing() {
    let mut accumulators = vec![tally(10, 25), tally(30, 20), tally(7, 8)];
    let expressions = vec![vec![], vec![], vec![]];
    let filters = vec![None, None, None];
    let result = run(AggregateMode::Partial, &mut accumulators, expressions, filters);
    assert_eq!(result.unwrap().unwrap(), 16);
}

#[test]
fn failed_filter_ends_the_run() {
    let mut accumulators = vec![tally(0, 5), tally(0, 5), tally(0, 5)];
    let expressions = vec![vec![], vec![Expr::Broken("expression")], vec![]];
    let filters = vec![None, Some(Expr::Broken("filter")), None];
    let result = run(AggregateMode::Partial, &mut accumulators, expressions, filters);
    assert_eq!(message(result), "filter");
    assert_eq!(accumulators[0].updated.len(), 1);
    assert!(untouched(&accumulators[1]));
    assert!(untouched(&accumulators[2]));
}

#[test]
fn first_failed_expression_ends_the_run() {
    let mut accumulators = vec![tally(0, 5), tally(0, 5)];
    let expressions =
        vec![vec![Expr::Numbers, Expr::Broken("first"), Expr::Broken("second")], vec![]];
    let result = run(AggregateMode::Partial, &mut accumulators, expressions, vec![None, None]);
    assert_eq!(message(result), "first");
    assert!(untouched(&accumulators[0]));
    assert!(untouched(&accumulators[1]));
}

#[test]
fn scalar_without_an_array_ends_the_run() {
    let mut accumulators = vec![tally(0, 5)];
    let expressions = vec![vec![Expr::Unholdable]];
    let result = run(AggregateMode::Partial, &mut accumulators, expressions, vec![None]);
    assert!(matches!(result, Some(Err(AggregateError::DataFusion(_)))));
    assert!(untouched(&accumulators[0]));
}

#[test]
fn refused_values_end_the_run() {
    let mut accumulators = vec![tally(0, 5), tally(10, 90), tally(0, 5)];
    accumulators[1].refuses = Some("accumulator");
    let expressions = vec![vec![], vec![], vec![]];
    let filters = vec![None, None, None];
    let result = run(AggregateMode::Final, &mut accumulators, expressions, filters);
    assert_eq!(message(result), "accumulator");
    assert_eq!(accumulators[0].merged.len(), 1);
    assert_eq!(accumulators[1].merged.len(), 1);
    assert!(untouched(&accumulators[2]));
}

#[test]
fn growth_that_does_not_fit_has_no_result() {
    let fits = |growth: usize| {
        let mut accumulators = vec![tally(0, usize::MAX - 5), tally(1, 1 + growth)];
        run(AggregateMode::Partial, &mut accumulators, vec![vec![], vec![]], vec![None, None])
    };
    assert_eq!(fits(5).unwrap().unwrap(), usize::MAX);
    assert!(fits(6).is_none());
}

#[test]
fn refused_growth_that_does_not_fit_has_no_result() {
    let mut accumulators = vec![tally(0, usize::MAX), tally(0, 1)];
    accumulators[1].refuses = Some("accumulator");
    let expressions = vec![vec![], vec![]];
    assert!(run(AggregateMode::Partial, &mut accumulators, expressions, vec![None, None]).is_none());
}

#[test]
fn run_ends_with_the_shortest_list() {
    let mut accumulators = vec![tally(0, 1), tally(0, 2), tally(0, 4)];
    let expressions = vec![vec![], vec![]];
    let filters = vec![None, None, None, None];
    let result = run(AggregateMode::Partial, &mut accumulators, expressions, filters);
    assert_eq!(result.unwrap().unwrap(), 3);
    assert!(untouched(&accumulators[2]));

    let mut accumulators = vec![tally(0, 1), tally(0, 2)];
    let result = run(AggregateMode::Partial, &mut accumulators, vec![vec![], vec![]], vec![None]);
    assert_eq!(result.unwrap().unwrap(), 1);
    assert!(untouched(&accumulators[1]));
}

#[test]
fn error_of_a_conversion_is_handed_on() {
    let own = ScalarValue::Decimal128(Some(1), 0, 0).to_array_of_size(3).unwrap_err();
    let mut accumulators = vec![tally(0, 5)];
    let expressions = vec![vec![Expr::Numbers, Expr::Unholdable, Expr::Broken("later")]];
    match run(AggregateMode::Partial, &mut accumulators, expressions, vec![None]) {
        Some(Err(AggregateError::DataFusion(e))) => assert_eq!(e.to_string(), own.to_string()),
        _ => panic!("the error was lost"),
    }
}

#[test]
fn modes_that_feed_alike_give_the_same_run() {
    let feed = |mode: AggregateMode| {
        let mut accumulators = vec![tally(1, 4), tally(2, 9)];
        let expressions = vec![vec![Expr::Numbers], vec![Expr::Rows]];
        let filters = vec![Some(Expr::Above(1)), None];
        let grown = run(mode, &mut accumulators, expressions, filters).unwrap().unwrap();
        let fed: Vec<_> = accumulators.into_iter().map(|a| (a.updated, a.merged)).collect();
        (grown, fed)
    };
    let updated = feed(AggregateMode::Partial);
    assert_eq!(updated.0, 10);
    assert_eq!(feed(AggregateMode::Single), updated);
    assert_eq!(feed(AggregateMode::SinglePartitioned), updated);
    let merged = feed(AggregateMode::Final);
    assert_eq!(feed(AggregateMode::FinalPartitioned), merged);
    assert!(merged != updated);
}

#[test]
fn columns_and_plain_scalars_can_be_turned_into_columns() {
    let array: ArrayRef = Arc::new(Int64Array::from(vec![1, 2]));
    assert!(is_plain_value(&ColumnarValue::Array(array), usize::MAX));
    let literal = ColumnarValue::Scalar(ScalarValue::Int64(Some(1)));
    assert!(is_plain_value(&literal, 1_000_000));
    assert!(is_plain_value(&literal, MOST_ROWS));
    assert!(!is_plain_value(&literal, MOST_ROWS + 1));
    let key = Box::new(DataType::Utf8);
    let value = Box::new(ScalarValue::Int64(Some(1)));
    assert!(!is_plain_value(&ColumnarValue::Scalar(ScalarValue::Dictionary(key, value)), 1));
}

#[test]
fn batches_tell_their_rows() {
    assert_eq!(numbers(vec![4, 5, 6, 7]).rows(), 4);
}

#[test]
fn filters_apply_where_rows_come_in() {
    let filters = || vec![Some('f'), None];
    for mode in [AggregateMode::Partial, AggregateMode::Single, AggregateMode::SinglePartitioned] {
        assert_eq!(filter_expressions(&mode, filters(), 3), filters());
    }
    for mode in [AggregateMode::Final, AggregateMode::FinalPartitioned] {
        assert_eq!(filter_expressions(&mode, filters(), 3), vec![None, None, None]);
    }
}

#[test]
fn filter_that_keeps_all_rows_is_no_filter() {
    let feed = |filter: Option<Expr>, refuses: Option<&'static str>| {
        let mut accumulators = vec![tally(1, 4), tally(2, 9)];
        accumulators[0].refuses = refuses;
        let expressions = vec![vec![Expr::Numbers, Expr::Rows], vec![Expr::Rows]];
        let result = run(AggregateMode::Partial, &mut accumulators, expressions, vec![filter, None]);
        let result = result.unwrap().map_err(|e| match e {
            AggregateError::DataFusion(e) => e.to_string(),
            _ => panic!("an error of another kind"),
        });
        let fed: Vec<_> = accumulators.into_iter().map(|a| (a.updated, a.size)).collect();
        (result, fed)
    };
    let plain = feed(None, None);
    assert_eq!(plain.0, Ok(10));
    assert_eq!(feed(Some(Expr::Above(0)), None), plain);
    assert!(feed(Some(Expr::Above(1)), None) != plain);
    assert_eq!(feed(Some(Expr::Above(0)), Some("no")), feed(None, Some("no")));
}
