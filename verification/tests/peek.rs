use std::sync::Arc;

use aggregate_peek::clock::elapsed_ms;
use aggregate_peek::columns::Batch;
use aggregate_peek::mode::AggregateMode;
use aggregate_peek::peek::{IntermediatePeekConfig, PeekContext};
use aggregate_peek::text::append_decimal;
use arrow::array::Int64Array;
use arrow::datatypes::{DataType, Field, Schema};
use arrow::record_batch::RecordBatch;
use datafusion_common::DataFusionError;

const MS: u128 = 1_000_000;

fn ignore(_context: PeekContext) -> Result<(), DataFusionError> {
    Ok(())
}

#[test]
fn new_config_samples_a_thousand_groups() {
    let config = IntermediatePeekConfig::new(5, ignore);
    assert_eq!(config.peek_interval_ms, 5);
    assert_eq!(config.max_groups_to_peek, Some(1000));
}

#[test]
fn max_groups_can_be_set_and_lifted() {
    let config = IntermediatePeekConfig::new(1000, ignore).with_max_groups(Some(100));
    assert_eq!(config.max_groups_to_peek, Some(100));
    assert_eq!(config.peek_interval_ms, 1000);
    let callback = Arc::clone(&config.callback);
    let config = config.with_max_groups(None);
    assert_eq!(config.max_groups_to_peek, None);
    assert_eq!(config.peek_interval_ms, 1000);
    assert!(Arc::ptr_eq(&callback, &config.callback));
}

#[test]
fn cloned_config_shares_the_callback() {
    let config = IntermediatePeekConfig::new(7, ignore).with_max_groups(Some(3));
    let copy = config.clone();
    assert_eq!(copy.peek_interval_ms, 7);
    assert_eq!(copy.max_groups_to_peek, Some(3));
    assert!(Arc::ptr_eq(&copy.callback, &config.callback));
}

#[test]
fn config_is_shown_with_a_placeholder_for_the_callback() {
    assert_eq!(
        IntermediatePeekConfig::new(5, ignore).debug_text(),
        "IntermediatePeekConfig { peek_interval_ms: 5, max_groups_to_peek: Some(1000), \
         callback: \"<function>\" }"
    );
    assert_eq!(
        IntermediatePeekConfig::new(10, ignore).debug_text(),
        "IntermediatePeekConfig { peek_interval_ms: 10, max_groups_to_peek: Some(1000), \
         callback: \"<function>\" }"
    );
    assert_eq!(
        IntermediatePeekConfig::new(u64::MAX, ignore).with_max_groups(None).debug_text(),
        "IntermediatePeekConfig { peek_interval_ms: 18446744073709551615, \
         max_groups_to_peek: None, callback: \"<function>\" }"
    );
    assert_eq!(
        IntermediatePeekConfig::new(0, ignore).with_max_groups(Some(0)).debug_text(),
        "IntermediatePeekConfig { peek_interval_ms: 0, max_groups_to_peek: Some(0), \
         callback: \"<function>\" }"
    );
}

#[test]
fn decimals_are_appended() {
    for n in [0u64, 9, 10, 19, 100, 12_034, u64::MAX] {
        let mut text = String::from("n=");
        append_decimal(&mut text, n);
        assert_eq!(text, format!("n={}", n));
    }
}

#[test]
fn first_peek_is_always_due() {
    assert!(IntermediatePeekConfig::new(u64::MAX, ignore).is_due(None, 0));
}

#[test]
fn next_peek_waits_for_the_interval() {
    let config = IntermediatePeekConfig::new(5, ignore);
    let last = Some(3 * MS);
    assert!(!config.is_due(last, 3 * MS));
    assert!(!config.is_due(last, 8 * MS - 1));
    assert!(config.is_due(last, 8 * MS));
    assert!(config.is_due(last, 800 * MS));
}

#[test]
fn interval_of_zero_is_always_due() {
    let config = IntermediatePeekConfig::new(0, ignore);
    assert!(config.is_due(Some(10), 10));
    assert!(config.is_due(Some(10), 9));
}

#[test]
fn clock_that_goes_back_counts_as_no_time() {
    assert_eq!(elapsed_ms(10 * MS, 9 * MS), 0);
    assert!(!IntermediatePeekConfig::new(1, ignore).is_due(Some(10 * MS), 0));
}

#[test]
fn elapsed_time_is_in_whole_milliseconds() {
    assert_eq!(elapsed_ms(0, MS - 1), 0);
    assert_eq!(elapsed_ms(0, MS), 1);
    assert_eq!(elapsed_ms(5, 12_345 * MS + 4), 12_344);
    assert_eq!(elapsed_ms(0, (1u128 << 64) * MS), 0);
    assert_eq!(elapsed_ms(0, ((1u128 << 64) - 1) * MS), u64::MAX);
}

#[test]
fn context_can_be_cloned() {
    let schema = Schema::new(vec![Field::new("n", DataType::Int64, false)]);
    let inner =
        RecordBatch::try_new(Arc::new(schema), vec![Arc::new(Int64Array::from(vec![1, 2]))])
            .unwrap();
    let context =
        PeekContext { mode: AggregateMode::Final, intermediate_batch: Batch { inner: inner.clone() } };
    let copy = context.clone();
    assert_eq!(copy.mode, AggregateMode::Final);
    assert_eq!(copy.intermediate_batch.inner, inner);
    assert_eq!(context.intermediate_batch.inner, inner);
}

#[test]
fn modes_tell_rows_from_states() {
    assert!(!AggregateMode::Partial.merges());
    assert!(!AggregateMode::Single.merges());
    assert!(!AggregateMode::SinglePartitioned.merges());
    assert!(AggregateMode::Final.merges());
    assert!(AggregateMode::FinalPartitioned.merges());
}

#[test]
fn only_partial_mode_has_nothing_to_show() {
    assert!(!AggregateMode::Partial.peekable());
    assert!(AggregateMode::Single.peekable());
    assert!(AggregateMode::SinglePartitioned.peekable());
    assert!(AggregateMode::Final.peekable());
    assert!(AggregateMode::FinalPartitioned.peekable());
}
