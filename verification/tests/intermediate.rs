use std::sync::Arc;

use aggregate_peek::columns::{
    are_plain, is_plain, make_batch, scalars_to_columns, Batch, Column, MOST_ROWS, MOST_BYTES,
};
use aggregate_peek::error::AggregateError;
use aggregate_peek::intermediate::build_intermediate_batch;
use aggregate_peek::mode::AggregateMode;
use arrow::array::{Array, Int64Array, ListArray, StringArray};
use arrow::datatypes::{DataType, Field, Int64Type, Schema};
use datafusion_common::{DataFusionError, ScalarValue};

fn schema(nullable: &[bool]) -> Arc<Schema> {
    let fields: Vec<Field> = nullable
        .iter()
        .enumerate()
        .map(|(i, n)| Field::new(format!("c{}", i), DataType::Int64, *n))
        .collect();
    Arc::new(Schema::new(fields))
}

fn ints(values: Vec<Option<i64>>) -> Column {
    Column { array: Arc::new(Int64Array::from(values)) }
}

fn int64(value: i64) -> ScalarValue {
    ScalarValue::Int64(Some(value))
}

/// An accumulator with a given state, or with none.
struct Fixed {
    state: Option<Vec<ScalarValue>>,
    asked: usize,
}

fn fixed(state: Vec<ScalarValue>) -> Fixed {
    Fixed { state: Some(state), asked: 0 }
}

fn stateless() -> Fixed {
    Fixed { state: None, asked: 0 }
}

fn state(accumulator: &mut Fixed) -> Result<Vec<ScalarValue>, DataFusionError> {
    accumulator.asked += 1;
    match &accumulator.state {
        Some(scalars) => Ok(scalars.clone()),
        None => Err(failed("no state")),
    }
}

fn build(
    accumulators: &mut Vec<Fixed>,
    mode: AggregateMode,
    schema: Arc<Schema>,
) -> Result<Batch, AggregateError> {
    build_intermediate_batch(accumulators, &mode, &schema, &state)
}

fn asked(accumulators: &Vec<Fixed>) -> Vec<usize> {
    accumulators.iter().map(|accumulator| accumulator.asked).collect()
}

fn value(batch: &Batch, column: usize) -> i64 {
    batch.inner.column(column).as_any().downcast_ref::<Int64Array>().unwrap().value(0)
}

fn failed(text: &str) -> DataFusionError {
    DataFusionError::Execution(text.to_string())
}

#[test]
fn partial_mode_is_refused() {
    let mut accumulators = vec![fixed(vec![int64(1)])];
    match build(&mut accumulators, AggregateMode::Partial, schema(&[false])) {
        Err(AggregateError::Internal(message)) => assert_eq!(
            message,
            "Intermediate peeking is only supported for Final/Single aggregation modes"
        ),
        _ => panic!("partial results were shown"),
    }
    assert_eq!(asked(&accumulators), vec![0]);
}

#[test]
fn other_modes_are_shown() {
    for mode in [
        AggregateMode::Final,
        AggregateMode::FinalPartitioned,
        AggregateMode::Single,
        AggregateMode::SinglePartitioned,
    ] {
        let mut accumulators = vec![fixed(vec![int64(5)])];
        assert_eq!(value(&build(&mut accumulators, mode, schema(&[false])).unwrap(), 0), 5);
    }
}

#[test]
fn states_stand_side_by_side_in_one_row() {
    let mut accumulators = vec![
        fixed(vec![int64(299_700_000), int64(600_000)]),
        fixed(vec![int64(0)]),
        fixed(vec![int64(999)]),
    ];
    let schema = schema(&[true, false, true, true]);
    let batch = build(&mut accumulators, AggregateMode::Final, Arc::clone(&schema)).unwrap();
    assert_eq!(batch.inner.num_rows(), 1);
    assert_eq!(batch.inner.num_columns(), 4);
    assert_eq!(batch.inner.schema(), schema);
    assert_eq!(value(&batch, 0), 299_700_000);
    assert_eq!(value(&batch, 1), 600_000);
    assert_eq!(value(&batch, 2), 0);
    assert_eq!(value(&batch, 3), 999);
    assert_eq!(asked(&accumulators), vec![1, 1, 1]);
}

#[test]
fn state_without_values_adds_no_column() {
    let mut accumulators = vec![fixed(vec![]), fixed(vec![int64(4)])];
    let batch = build(&mut accumulators, AggregateMode::Single, schema(&[false])).unwrap();
    assert_eq!(batch.inner.num_columns(), 1);
    assert_eq!(value(&batch, 0), 4);
}

#[test]
fn failed_state_ends_the_collection() {
    let mut accumulators = vec![fixed(vec![int64(1)]), stateless(), fixed(vec![int64(2)])];
    match build(&mut accumulators, AggregateMode::Final, schema(&[false])) {
        Err(AggregateError::DataFusion(DataFusionError::Execution(m))) => {
            assert_eq!(m, "no state")
        }
        _ => panic!("the error was lost"),
    }
    assert_eq!(asked(&accumulators), vec![1, 1, 0]);
}

#[test]
fn scalar_that_has_no_array_ends_the_collection() {
    let decimal = ScalarValue::Decimal128(Some(1), 0, 0);
    let mut accumulators = vec![fixed(vec![int64(1), decimal]), fixed(vec![int64(2)])];
    let made = build(&mut accumulators, AggregateMode::Final, schema(&[false, false]));
    assert!(matches!(made, Err(AggregateError::DataFusion(_))));
    assert_eq!(asked(&accumulators), vec![1, 0]);
}

#[test]
fn no_accumulators_make_no_batch() {
    let made = build(&mut vec![], AggregateMode::Final, schema(&[]));
    assert!(matches!(made, Err(AggregateError::Arrow(_))));
}

#[test]
fn states_have_to_fit_the_schema() {
    let mut accumulators = vec![fixed(vec![int64(1), int64(2)])];
    let made = build(&mut accumulators, AggregateMode::Final, schema(&[false]));
    assert!(matches!(made, Err(AggregateError::Arrow(_))));
}

#[test]
fn columns_have_to_fit_the_schema() {
    let one = || vec![ints(vec![Some(1)])];
    assert!(make_batch(&schema(&[false]), one()).is_ok());
    assert!(matches!(make_batch(&schema(&[false, false]), one()), Err(AggregateError::Arrow(_))));
    assert!(matches!(make_batch(&schema(&[]), one()), Err(AggregateError::Arrow(_))));
    let text = vec![Column { array: Arc::new(StringArray::from(vec!["a"])) }];
    assert!(matches!(make_batch(&schema(&[false]), text), Err(AggregateError::Arrow(_))));
}

#[test]
fn nulls_have_to_be_allowed() {
    assert!(make_batch(&schema(&[true]), vec![ints(vec![None])]).is_ok());
    assert!(matches!(
        make_batch(&schema(&[false]), vec![ints(vec![None])]),
        Err(AggregateError::Arrow(_))
    ));
}

#[test]
fn columns_have_to_be_equally_long() {
    let columns = || vec![ints(vec![Some(1)]), ints(vec![Some(1), Some(2)])];
    assert!(matches!(
        make_batch(&schema(&[false, false]), columns()),
        Err(AggregateError::Arrow(_))
    ));
    let equal = vec![ints(vec![Some(1), Some(3)]), ints(vec![Some(1), Some(2)])];
    assert_eq!(make_batch(&schema(&[false, false]), equal).unwrap().inner.num_rows(), 2);
}

#[test]
fn scalars_become_columns_of_one_row() {
    let columns = scalars_to_columns(&vec![int64(7), ScalarValue::Int64(None)]).unwrap();
    assert_eq!(columns.len(), 2);
    assert_eq!(columns[0].array.len(), 1);
    assert_eq!(columns[0].array.null_count(), 0);
    assert_eq!(columns[1].array.len(), 1);
    assert_eq!(columns[1].array.null_count(), 1);
}

#[test]
fn first_scalar_that_has_no_array_gives_the_error() {
    let own = ScalarValue::Decimal128(Some(1), 0, 0).to_array().unwrap_err().to_string();
    let other = ScalarValue::Decimal128(Some(1), 200, 0);
    assert!(other.to_array().unwrap_err().to_string() != own);
    let scalars = vec![int64(1), ScalarValue::Decimal128(Some(1), 0, 0), other];
    assert_eq!(scalars_to_columns(&scalars).unwrap_err().to_string(), own);
    let mut accumulators = vec![fixed(scalars)];
    match build(&mut accumulators, AggregateMode::Final, schema(&[false])) {
        Err(AggregateError::DataFusion(e)) => assert_eq!(e.to_string(), own),
        _ => panic!("the error was lost"),
    }
}

#[test]
fn mode_has_no_influence_on_what_is_shown() {
    let shown = |mode: AggregateMode| {
        let mut accumulators = vec![fixed(vec![int64(3)]), fixed(vec![int64(4)])];
        build(&mut accumulators, mode, schema(&[false, true])).unwrap().inner
    };
    let first = shown(AggregateMode::Final);
    assert_eq!(shown(AggregateMode::FinalPartitioned), first);
    assert_eq!(shown(AggregateMode::Single), first);
    assert_eq!(shown(AggregateMode::SinglePartitioned), first);
}

#[test]
fn second_batch_is_the_same_as_the_first() {
    let mut accumulators = vec![fixed(vec![int64(3), int64(9)])];
    let schema = schema(&[false, false]);
    let first = build(&mut accumulators, AggregateMode::Final, Arc::clone(&schema)).unwrap();
    let second = build(&mut accumulators, AggregateMode::Final, schema).unwrap();
    assert_eq!(first.inner, second.inner);
    assert_eq!(accumulators[0].state, Some(vec![int64(3), int64(9)]));
}

#[test]
fn numbers_dates_and_truth_values_are_plain() {
    assert!(are_plain(&vec![]));
    assert!(are_plain(&vec![int64(1), ScalarValue::Date32(Some(3)), ScalarValue::Int64(None)]));
    assert!(are_plain(&vec![ScalarValue::Boolean(Some(true)), ScalarValue::Boolean(None)]));
    let bytes = ScalarValue::FixedSizeBinary(3, Some(vec![1]));
    assert!(!are_plain(&vec![int64(1), bytes]));
    assert!(is_plain(&int64(1), MOST_ROWS));
    assert!(!is_plain(&int64(1), MOST_ROWS + 1));
}

#[test]
fn text_is_plain_unless_it_is_too_long() {
    let abcd = || Some("abcd".to_string());
    for text in [
        ScalarValue::Utf8(abcd()),
        ScalarValue::LargeUtf8(abcd()),
        ScalarValue::Utf8View(abcd()),
    ] {
        assert!(is_plain(&text, 1));
        assert!(is_plain(&text, MOST_BYTES / 4));
        assert!(!is_plain(&text, MOST_BYTES / 4 + 1));
        assert_eq!(text.to_array_of_size(5).unwrap().len(), 5);
    }
    for null in [ScalarValue::Utf8(None), ScalarValue::LargeUtf8(None), ScalarValue::Utf8View(None)]
    {
        assert!(is_plain(&null, 1));
        assert_eq!(null.to_array_of_size(5).unwrap().null_count(), 5);
    }
}

#[test]
fn bytes_are_plain_as_text_is() {
    let four = || Some(vec![1u8, 2, 3, 4]);
    for bytes in [
        ScalarValue::Binary(four()),
        ScalarValue::LargeBinary(four()),
        ScalarValue::BinaryView(four()),
    ] {
        assert!(is_plain(&bytes, MOST_BYTES / 4));
        assert!(!is_plain(&bytes, MOST_BYTES / 4 + 1));
        assert_eq!(bytes.to_array_of_size(5).unwrap().len(), 5);
    }
    for null in
        [ScalarValue::Binary(None), ScalarValue::LargeBinary(None), ScalarValue::BinaryView(None)]
    {
        assert!(is_plain(&null, 1));
        assert_eq!(null.to_array_of_size(5).unwrap().null_count(), 5);
    }
}

#[test]
fn nested_value_of_one_row_is_plain_for_one_row() {
    let list = |rows: usize| {
        let row = || Some(vec![Some(1), None]);
        let rows = (0..rows).map(|_| row());
        ScalarValue::List(Arc::new(ListArray::from_iter_primitive::<Int64Type, _, _>(rows)))
    };
    assert!(is_plain(&list(1), 1));
    assert!(!is_plain(&list(1), 2));
    assert!(!is_plain(&list(2), 1));
    assert!(!is_plain(&list(0), 1));
    let columns = scalars_to_columns(&vec![list(1)]).unwrap();
    assert_eq!(columns[0].array.len(), 1);
    let key = Box::new(DataType::Int8);
    let dictionary = ScalarValue::Dictionary(key, Box::new(ScalarValue::Int64(Some(1))));
    assert!(!is_plain(&dictionary, 1));
}
