use std::sync::atomic::{AtomicUsize, Ordering};
use std::sync::{Arc, Mutex};

use aggregate_peek::batch::{aggregate_batch, BatchCalls};
use aggregate_peek::columns::{Batch, Column};
use aggregate_peek::error::AggregateError;
use aggregate_peek::mode::AggregateMode;
use aggregate_peek::no_grouping::{
    AggregateExec, AggregateStreamInner, StreamAction, StreamEvent,
};
use aggregate_peek::peek::{IntermediatePeekConfig, PeekContext};
use arrow::array::{Array, ArrayRef, Int64Array};
use arrow::datatypes::{DataType, Field, Schema};
use arrow::record_batch::RecordBatch;
use datafusion_common::{DataFusionError, ScalarValue};
use datafusion_execution::memory_pool::GreedyMemoryPool;
use datafusion_execution::runtime_env::RuntimeEnvBuilder;
use datafusion_execution::TaskContext;
use datafusion_expr::ColumnarValue;

const MS: u128 = 1_000_000;

type Callback = Box<dyn Fn(PeekContext) -> Result<(), DataFusionError> + Send + Sync>;
type Stream = AggregateStreamInner<i64, char, Callback>;

fn schema() -> Arc<Schema> {
    Arc::new(Schema::new(vec![Field::new("sum", DataType::Int64, false)]))
}

fn numbers(values: Vec<i64>) -> Batch {
    let array: ArrayRef = Arc::new(Int64Array::from(values));
    Batch { inner: RecordBatch::try_new(schema(), vec![array]).unwrap() }
}

fn number(value: i64) -> Column {
    Column { array: Arc::new(Int64Array::from(vec![value])) }
}

fn failed(text: &str) -> DataFusionError {
    DataFusionError::Execution(text.to_string())
}

fn limited(bytes: usize) -> TaskContext {
    let runtime = RuntimeEnvBuilder::new()
        .with_memory_pool(Arc::new(GreedyMemoryPool::new(bytes)))
        .build_arc()
        .unwrap();
    TaskContext::default().with_runtime(runtime)
}

fn make(
    mode: AggregateMode,
    config: Option<IntermediatePeekConfig<Callback>>,
    context: &TaskContext,
) -> Stream {
    let agg = AggregateExec {
        schema: schema(),
        mode,
        aggr_exprs: 1,
        filter_expr: vec![Some('f')],
        intermediate_peek_config: config,
    };
    AggregateStreamInner::new(agg, vec![vec!['e']], vec![0], context, 12)
}

fn quiet(mode: AggregateMode) -> Stream {
    make(mode, None, &TaskContext::default())
}

fn step(stream: &mut Stream, event: StreamEvent) -> StreamAction {
    stream.checked_step(event).unwrap()
}

fn text_of(action: StreamAction) -> String {
    match action {
        StreamAction::Emit(Err(AggregateError::DataFusion(DataFusionError::Execution(text)))) => {
            text
        }
        _ => panic!("the stream did not hand on the error"),
    }
}

fn assert_ended(stream: &mut Stream) {
    for _ in 0..3 {
        assert!(matches!(step(stream, StreamEvent::Polled), StreamAction::End));
    }
}

/// The state of an accumulator that holds a sum.
fn state(sum: &mut i64) -> Result<Vec<ScalarValue>, DataFusionError> {
    Ok(vec![ScalarValue::Int64(Some(*sum))])
}

fn values_of(array: &ArrayRef) -> Vec<i64> {
    array.as_any().downcast_ref::<Int64Array>().unwrap().values().to_vec()
}

/// Brings a batch to a stream's accumulators: its filter keeps the numbers above one.
fn aggregate(stream: &mut Stream, batch: Batch) -> Result<usize, AggregateError> {
    let add = |sum: &mut i64, values: &Vec<Column>| -> Result<(), DataFusionError> {
        *sum += values_of(&values[0].array).iter().sum::<i64>();
        Ok(())
    };
    let calls = BatchCalls {
        filter: |batch: &Batch, _predicate: &char| -> Result<Batch, DataFusionError> {
            let kept = values_of(batch.inner.column(0)).into_iter().filter(|n| *n > 1);
            Ok(numbers(kept.collect()))
        },
        evaluate: |_expression: &char, batch: &Batch| -> Result<ColumnarValue, DataFusionError> {
            Ok(ColumnarValue::Array(Arc::clone(batch.inner.column(0))))
        },
        size: |sum: &i64| -> usize { *sum as usize },
        update_batch: add,
        merge_batch: add,
    };
    aggregate_batch(
        &stream.mode,
        batch,
        &mut stream.accumulators,
        &stream.aggregate_expressions,
        &stream.filter_expressions,
        &calls,
    )
    .unwrap()
}

fn counting(seen: &Arc<Mutex<Vec<(AggregateMode, i64, usize)>>>) -> Callback {
    let seen = Arc::clone(seen);
    Box::new(move |context: PeekContext| {
        let batch = &context.intermediate_batch.inner;
        let column = batch.column(0).as_any().downcast_ref::<Int64Array>().unwrap();
        seen.lock().unwrap().push((context.mode, column.value(0), batch.num_rows()));
        Err(DataFusionError::Execution("ignored".to_string()))
    })
}

#[test]
fn new_stream_has_read_nothing() {
    let stream = quiet(AggregateMode::Single);
    assert!(!stream.finished);
    assert_eq!(stream.reservation.size(), 0);
    assert_eq!(stream.reservation.consumer().name(), "AggregateStream[12]");
    assert_eq!(stream.mode, AggregateMode::Single);
    assert_eq!(stream.schema, schema());
    assert_eq!(stream.aggregate_expressions, vec![vec!['e']]);
    assert_eq!(stream.filter_expressions, vec![Some('f')]);
    assert_eq!(stream.accumulators, vec![0]);
    assert_eq!(stream.last_peek_time, None);
    assert!(stream.peek_config.is_none());
}

#[test]
fn merging_stream_does_not_filter() {
    let mut stream = quiet(AggregateMode::Final);
    assert_eq!(stream.filter_expressions, vec![None]);
    assert_eq!(aggregate(&mut stream, numbers(vec![1, 2, 3])).unwrap(), 6);
    assert_eq!(stream.accumulators, vec![6]);
}

#[test]
fn stream_of_rows_filters_them() {
    let mut stream = quiet(AggregateMode::Partial);
    assert_eq!(aggregate(&mut stream, numbers(vec![1, 2, 3])).unwrap(), 5);
    assert_eq!(stream.accumulators, vec![5]);
}

#[test]
fn stream_gives_its_result_once() {
    let mut stream = quiet(AggregateMode::Single);
    assert!(matches!(step(&mut stream, StreamEvent::Polled), StreamAction::ReadInput));
    match step(&mut stream, StreamEvent::Input(Some(Ok(numbers(vec![3, 4]))))) {
        StreamAction::Aggregate(batch) => assert_eq!(batch.inner.num_rows(), 2),
        _ => panic!("the batch was not aggregated"),
    }
    assert!(matches!(step(&mut stream, StreamEvent::Aggregated(Ok(64))), StreamAction::Peek));
    assert_eq!(stream.reservation.size(), 64);
    assert!(matches!(step(&mut stream, StreamEvent::Peeked), StreamAction::ReadInput));
    assert!(!stream.finished);
    assert!(matches!(step(&mut stream, StreamEvent::Input(None)), StreamAction::Finalize));
    match step(&mut stream, StreamEvent::Finalized(Ok(vec![number(7)]))) {
        StreamAction::Emit(Ok(batch)) => {
            assert_eq!(batch.inner.num_rows(), 1);
            assert_eq!(batch.inner.schema(), schema());
            let column = batch.inner.column(0).as_any().downcast_ref::<Int64Array>().unwrap();
            assert_eq!(column.value(0), 7);
        }
        _ => panic!("the result was not handed on"),
    }
    assert_ended(&mut stream);
    assert_eq!(stream.reservation.size(), 64);
}

#[test]
fn empty_input_still_gives_a_result() {
    let mut stream = quiet(AggregateMode::Single);
    step(&mut stream, StreamEvent::Polled);
    assert!(matches!(step(&mut stream, StreamEvent::Input(None)), StreamAction::Finalize));
    assert!(matches!(
        step(&mut stream, StreamEvent::Finalized(Ok(vec![number(0)]))),
        StreamAction::Emit(Ok(_))
    ));
    assert_ended(&mut stream);
}

#[test]
fn failed_input_ends_the_stream() {
    let mut stream = quiet(AggregateMode::Single);
    step(&mut stream, StreamEvent::Polled);
    let action = step(&mut stream, StreamEvent::Input(Some(Err(failed("input")))));
    assert_eq!(text_of(action), "input");
    assert_ended(&mut stream);
}

#[test]
fn failed_aggregation_ends_the_stream() {
    let mut stream = quiet(AggregateMode::Single);
    step(&mut stream, StreamEvent::Polled);
    step(&mut stream, StreamEvent::Input(Some(Ok(numbers(vec![1])))));
    let error = AggregateError::DataFusion(failed("aggregate"));
    let action = step(&mut stream, StreamEvent::Aggregated(Err(error)));
    assert_eq!(text_of(action), "aggregate");
    assert_eq!(stream.reservation.size(), 0);
    assert_ended(&mut stream);
}

#[test]
fn refused_memory_ends_the_stream() {
    let mut stream = make(AggregateMode::Single, None, &limited(100));
    step(&mut stream, StreamEvent::Polled);
    step(&mut stream, StreamEvent::Input(Some(Ok(numbers(vec![1])))));
    assert!(matches!(step(&mut stream, StreamEvent::Aggregated(Ok(60))), StreamAction::Peek));
    assert_eq!(stream.reservation.size(), 60);
    step(&mut stream, StreamEvent::Peeked);
    step(&mut stream, StreamEvent::Input(Some(Ok(numbers(vec![2])))));
    let action = step(&mut stream, StreamEvent::Aggregated(Ok(60)));
    assert!(matches!(action, StreamAction::Emit(Err(AggregateError::DataFusion(_)))));
    assert_eq!(stream.reservation.size(), 60);
    assert_ended(&mut stream);
}

#[test]
fn failed_finalization_ends_the_stream() {
    let mut stream = quiet(AggregateMode::Final);
    step(&mut stream, StreamEvent::Polled);
    step(&mut stream, StreamEvent::Input(None));
    assert_eq!(text_of(step(&mut stream, StreamEvent::Finalized(Err(failed("final"))))), "final");
    assert_ended(&mut stream);
}

#[test]
fn result_has_to_fit_the_schema() {
    let mut stream = quiet(AggregateMode::Final);
    step(&mut stream, StreamEvent::Polled);
    step(&mut stream, StreamEvent::Input(None));
    let action = step(&mut stream, StreamEvent::Finalized(Ok(vec![number(1), number(2)])));
    assert!(matches!(action, StreamAction::Emit(Err(AggregateError::Arrow(_)))));
    assert_ended(&mut stream);
}

#[test]
fn memory_beyond_the_address_space_is_not_counted() {
    let mut stream = quiet(AggregateMode::Single);
    assert!(matches!(step(&mut stream, StreamEvent::Aggregated(Ok(10))), StreamAction::Peek));
    assert!(stream.checked_step(StreamEvent::Aggregated(Ok(usize::MAX - 9))).is_none());
    assert_eq!(stream.reservation.size(), 10);
    assert!(!stream.finished);
}

#[test]
fn grant_decides_how_the_stream_goes_on() {
    let mut stream = quiet(AggregateMode::Single);
    assert!(matches!(stream.grown(Ok(())), StreamAction::Peek));
    assert!(!stream.finished);
    assert_eq!(text_of(stream.grown(Err(failed("pool")))), "pool");
    assert!(stream.finished);
}

#[test]
fn plain_step_takes_what_fits() {
    let mut stream = quiet(AggregateMode::Single);
    assert!(matches!(stream.step(StreamEvent::Aggregated(Ok(5))), StreamAction::Peek));
    assert_eq!(stream.reservation.size(), 5);
}

#[test]
fn nothing_is_peeked_unless_configured() {
    let mut stream = quiet(AggregateMode::Final);
    let asked = |_: &mut i64| -> Result<Vec<ScalarValue>, DataFusionError> {
        panic!("an accumulator was asked")
    };
    assert!(stream.peek_intermediate_results_at(0, &asked).is_ok());
    assert!(stream.peek_intermediate_results(&asked).is_ok());
    assert_eq!(stream.last_peek_time, None);
}

#[test]
fn peek_shows_one_row_and_ignores_the_answer() {
    let seen = Arc::new(Mutex::new(Vec::new()));
    let config = IntermediatePeekConfig::new(1000, counting(&seen));
    let mut stream = make(AggregateMode::Final, Some(config), &TaskContext::default());
    stream.accumulators = vec![4_295_700_000];
    assert!(stream.peek_intermediate_results(&state).is_ok());
    assert!(stream.last_peek_time.is_some());
    assert_eq!(*seen.lock().unwrap(), vec![(AggregateMode::Final, 4_295_700_000, 1)]);
    assert_eq!(stream.accumulators, vec![4_295_700_000]);
    assert!(!stream.finished);
    assert!(matches!(step(&mut stream, StreamEvent::Peeked), StreamAction::ReadInput));
}

#[test]
fn peek_whose_batch_cannot_be_made_is_skipped() {
    let seen = Arc::new(Mutex::new(Vec::new()));
    let config = IntermediatePeekConfig::new(0, counting(&seen));
    let mut stream = make(AggregateMode::Final, Some(config), &TaskContext::default());
    let wide = |_: &mut i64| -> Result<Vec<ScalarValue>, DataFusionError> {
        Ok(vec![ScalarValue::Int64(Some(1)), ScalarValue::Int64(Some(2))])
    };
    assert!(stream.peek_intermediate_results_at(5, &wide).is_ok());
    let broken = |_: &mut i64| -> Result<Vec<ScalarValue>, DataFusionError> {
        Err(DataFusionError::Execution("state".to_string()))
    };
    assert!(stream.peek_intermediate_results_at(6, &broken).is_ok());
    assert_eq!(stream.last_peek_time, Some(6));
    assert!(seen.lock().unwrap().is_empty());
}

#[test]
fn partial_stream_shows_nothing_but_keeps_time() {
    let seen = Arc::new(Mutex::new(Vec::new()));
    let config = IntermediatePeekConfig::new(5, counting(&seen));
    let mut stream = make(AggregateMode::Partial, Some(config), &TaskContext::default());
    assert!(stream.peek_intermediate_results_at(9 * MS, &state).is_ok());
    assert_eq!(stream.last_peek_time, Some(9 * MS));
    assert!(stream.peek_intermediate_results_at(10 * MS, &state).is_ok());
    assert_eq!(stream.last_peek_time, Some(9 * MS));
    assert!(seen.lock().unwrap().is_empty());
}

#[test]
fn peeks_are_an_interval_apart() {
    let looks = Arc::new(AtomicUsize::new(0));
    let counter = Arc::clone(&looks);
    let callback: Callback = Box::new(move |_context| {
        counter.fetch_add(1, Ordering::SeqCst);
        Ok(())
    });
    let config = IntermediatePeekConfig::new(5, callback);
    let mut stream = make(AggregateMode::Single, Some(config), &TaskContext::default());
    let mut times = Vec::new();
    for now in [2 * MS, 6 * MS, 7 * MS - 1, 7 * MS, 8 * MS, 30 * MS, 34 * MS, 35 * MS] {
        assert!(stream.peek_intermediate_results_at(now, &state).is_ok());
        if stream.last_peek_time == Some(now) {
            times.push(now);
        }
        assert_eq!(looks.load(Ordering::SeqCst), times.len());
    }
    assert_eq!(times, vec![2 * MS, 7 * MS, 30 * MS, 35 * MS]);
}

#[test]
fn first_look_by_the_clock_is_due_and_a_second_is_not() {
    let seen = Arc::new(Mutex::new(Vec::new()));
    let config = IntermediatePeekConfig::new(u64::MAX, counting(&seen));
    let mut stream = make(AggregateMode::Single, Some(config), &TaskContext::default());
    assert!(stream.peek_intermediate_results(&state).is_ok());
    let first = stream.last_peek_time;
    assert!(first.is_some());
    assert!(stream.peek_intermediate_results(&state).is_ok());
    assert_eq!(stream.last_peek_time, first);
    assert_eq!(seen.lock().unwrap().len(), 1);
}

#[test]
fn peeking_does_not_change_the_result() {
    let seen = Arc::new(Mutex::new(Vec::new()));
    let config = IntermediatePeekConfig::new(0, counting(&seen));
    let mut watched = make(AggregateMode::Single, Some(config), &TaskContext::default());
    let mut plain = quiet(AggregateMode::Single);
    for stream in [&mut watched, &mut plain] {
        step(stream, StreamEvent::Polled);
        for input in [vec![1, 2], vec![3]] {
            match step(stream, StreamEvent::Input(Some(Ok(numbers(input))))) {
                StreamAction::Aggregate(batch) => {
                    let grown = aggregate(stream, batch);
                    step(stream, StreamEvent::Aggregated(grown));
                }
                _ => panic!("the batch was not aggregated"),
            }
            assert!(stream.peek_intermediate_results_at(0, &state).is_ok());
            step(stream, StreamEvent::Peeked);
        }
        step(stream, StreamEvent::Input(None));
        let sum = stream.accumulators[0];
        match step(stream, StreamEvent::Finalized(Ok(vec![number(sum)]))) {
            StreamAction::Emit(Ok(batch)) => assert_eq!(batch.inner, numbers(vec![5]).inner),
            _ => panic!("the result was not handed on"),
        }
        assert_eq!(stream.reservation.size(), 5);
    }
    let single = AggregateMode::Single;
    assert_eq!(*seen.lock().unwrap(), vec![(single, 2, 1), (single, 5, 1)]);
}

#[test]
fn look_gives_what_the_callback_is_handed() {
    let seen = Arc::new(Mutex::new(Vec::new()));
    let config = IntermediatePeekConfig::new(5, counting(&seen));
    let mut stream = make(AggregateMode::Single, Some(config), &TaskContext::default());
    stream.accumulators = vec![17];
    let context = stream.look_at(3 * MS, &state).unwrap();
    assert_eq!(context.mode, AggregateMode::Single);
    assert_eq!(context.intermediate_batch.inner, numbers(vec![17]).inner);
    assert_eq!(stream.last_peek_time, Some(3 * MS));
    assert!(stream.look_at(4 * MS, &state).is_none());
    assert_eq!(stream.last_peek_time, Some(3 * MS));
    let broken = |_: &mut i64| -> Result<Vec<ScalarValue>, DataFusionError> {
        Err(DataFusionError::Execution("state".to_string()))
    };
    assert!(stream.look_at(8 * MS, &broken).is_none());
    assert_eq!(stream.last_peek_time, Some(8 * MS));
    assert!(seen.lock().unwrap().is_empty());
    assert!(quiet(AggregateMode::Single).look_at(0, &state).is_none());
}

#[test]
fn one_look_calls_the_callback_once() {
    let seen = Arc::new(Mutex::new(Vec::new()));
    let config = IntermediatePeekConfig::new(5, counting(&seen));
    let mut stream = make(AggregateMode::Single, Some(config), &TaskContext::default());
    assert!(stream.peek_intermediate_results_at(0, &state).is_ok());
    assert_eq!(seen.lock().unwrap().len(), 1);
}

#[test]
fn group_limit_has_no_influence() {
    for limit in [None, Some(0), Some(1), Some(1000)] {
        let seen = Arc::new(Mutex::new(Vec::new()));
        let config = IntermediatePeekConfig::new(5, counting(&seen)).with_max_groups(limit);
        let mut stream = make(AggregateMode::Final, Some(config), &TaskContext::default());
        stream.accumulators = vec![8];
        for now in [MS, 2 * MS, 6 * MS] {
            assert!(stream.peek_intermediate_results_at(now, &state).is_ok());
        }
        assert_eq!(stream.last_peek_time, Some(6 * MS));
        let shown = (AggregateMode::Final, 8, 1);
        assert_eq!(*seen.lock().unwrap(), vec![shown, shown]);
    }
}

/// Runs a stream over the inputs to its end, with a look after every batch: the texts of the items.
fn items(mut stream: Stream, inputs: Vec<Option<Result<Vec<i64>, &str>>>) -> Vec<String> {
    let mut inputs = inputs.into_iter();
    let mut items = Vec::new();
    let mut now = 0;
    let mut event = StreamEvent::Polled;
    loop {
        event = match step(&mut stream, event) {
            StreamAction::End => return items,
            StreamAction::ReadInput => StreamEvent::Input(
                inputs.next().unwrap().map(|input| input.map(numbers).map_err(failed)),
            ),
            StreamAction::Aggregate(batch) => {
                StreamEvent::Aggregated(aggregate(&mut stream, batch))
            }
            StreamAction::Peek => {
                now += 3 * MS;
                assert!(stream.peek_intermediate_results_at(now, &state).is_ok());
                StreamEvent::Peeked
            }
            StreamAction::Finalize => {
                StreamEvent::Finalized(Ok(stream.accumulators.iter().map(|n| number(*n)).collect()))
            }
            StreamAction::Emit(item) => {
                items.push(match item {
                    Ok(batch) => format!("{:?}", values_of(batch.inner.column(0))),
                    Err(AggregateError::DataFusion(e)) => e.to_string(),
                    Err(_) => panic!("an error of another kind"),
                });
                StreamEvent::Polled
            }
        };
    }
}

#[test]
fn looking_does_not_affect_the_items() {
    let whole: Vec<Option<Result<Vec<i64>, &str>>> =
        vec![Some(Ok(vec![1, 2])), Some(Ok(vec![30, 4])), Some(Ok(vec![])), None];
    let broken = vec![Some(Ok(vec![5])), Some(Err("input")), None];
    let large = vec![Some(Ok(vec![60])), Some(Ok(vec![60])), None];
    let own = failed("input").to_string();
    for (inputs, expected) in [(whole, Some("[36]")), (broken, Some(own.as_str())), (large, None)] {
        let plain = items(make(AggregateMode::Single, None, &limited(100)), inputs.clone());
        assert_eq!(plain.len(), 1);
        if let Some(text) = expected {
            assert_eq!(plain[0], text);
        }
        for interval in [0, 5, u64::MAX] {
            let seen = Arc::new(Mutex::new(Vec::new()));
            let config = IntermediatePeekConfig::new(interval, counting(&seen));
            let watched = make(AggregateMode::Single, Some(config), &limited(100));
            assert_eq!(items(watched, inputs.clone()), plain);
            assert!(!seen.lock().unwrap().is_empty());
        }
    }
}
