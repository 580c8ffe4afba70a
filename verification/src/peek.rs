//! Looking at the intermediate results of an aggregation while it runs.
//!
//! A caller hands in a callback with an [`IntermediatePeekConfig`]. From time to time, and never
//! more often than the configured interval, the aggregation gives it a [`PeekContext`] with the
//! results so far.
use crate::clock::{elapsed_ms, spec_elapsed_ms};
use crate::columns::Batch;
use crate::mode::AggregateMode;
use crate::text::{append_decimal, decimal};
use datafusion_common::DataFusionError;
use std::sync::Arc;
use vstd::prelude::*;

verus! {

/// The number of groups that a look at a grouped aggregation takes in, unless told otherwise.
pub const DEFAULT_MAX_GROUPS: usize = 1000;

/// What the callback is given: the intermediate state of an aggregation.
#[derive(Debug)]
pub struct PeekContext {
    /// The mode of the aggregation.
    pub mode: AggregateMode,
    /// The intermediate results. Without grouping, this is a single row with the current
    /// state of every aggregate.
    pub intermediate_batch: Batch,
}

impl Clone for PeekContext {
    fn clone(&self) -> (copy: Self)
        ensures
            copy == *self,
    {
        PeekContext { mode: self.mode, intermediate_batch: self.intermediate_batch.clone() }
    }
}

/// How intermediate results are looked at: how often, by whom, and how much of them.
pub struct IntermediatePeekConfig<F> {
    /// The least time between two looks, in milliseconds.
    pub peek_interval_ms: u64,
    /// What is called with the intermediate results.
    pub callback: Arc<F>,
    /// The largest number of groups to take in of a grouped aggregation; all of them where there
    /// is none. Aggregations without grouping have one row and take in all of it.
    pub max_groups_to_peek: Option<usize>,
}

/// Whether a look is due at `now`, where the last one was at `last` and `interval_ms` has to pass
/// in between. The first look is always due.
pub open spec fn peek_due(interval_ms: u64, last: Option<u128>, now: u128) -> bool {
    match last {
        None => true,
        Some(earlier) => spec_elapsed_ms(earlier, now) >= interval_ms,
    }
}

/// `Some(n)` or `None`, as text.
pub open spec fn optional_count_text(count: Option<usize>) -> Seq<char> {
    match count {
        Some(n) => "Some("@ + decimal(n as nat) + ")"@,
        None => "None"@,
    }
}

impl<F> IntermediatePeekConfig<F> {
    /// Looks at least `peek_interval_ms` milliseconds apart, each handed to `callback`. Of a
    /// grouped aggregation a look takes in up to 1000 groups.
    pub fn new(peek_interval_ms: u64, callback: F) -> (config: Self) where
        F: Fn(PeekContext) -> Result<(), DataFusionError> + Send + Sync + 'static,

        ensures
            config.peek_interval_ms == peek_interval_ms,
            *config.callback == callback,
            config.max_groups_to_peek == Some(1000usize),
    {
        IntermediatePeekConfig {
            peek_interval_ms,
            callback: Arc::new(callback),
            max_groups_to_peek: Some(DEFAULT_MAX_GROUPS),
        }
    }

    /// Sets how many groups a look at a grouped aggregation takes in; all of them for `None`.
    pub fn with_max_groups(self, max_groups: Option<usize>) -> (config: Self)
        ensures
            config.max_groups_to_peek == max_groups,
            config.peek_interval_ms == self.peek_interval_ms,
            config.callback == self.callback,
    {
        IntermediatePeekConfig { max_groups_to_peek: max_groups, ..self }
    }

    /// Whether a look is due at `now`, where the last one was at `last`; both in nanoseconds.
    pub fn is_due(&self, last: Option<u128>, now: u128) -> (due: bool)
        ensures
            due == peek_due(self.peek_interval_ms, last, now),
    {
        match last {
            None => true,
            Some(earlier) => elapsed_ms(earlier, now) >= self.peek_interval_ms,
        }
    }

    /// The configuration as text that [`debug_text`](Self::debug_text) writes.
    pub open spec fn spec_debug_text(self) -> Seq<char> {
        "IntermediatePeekConfig { peek_interval_ms: "@ + decimal(self.peek_interval_ms as nat)
            + ", max_groups_to_peek: "@ + optional_count_text(self.max_groups_to_peek)
            + ", callback: \"<function>\" }"@
    }

    /// The configuration as text, with a placeholder for the callback.
    pub fn debug_text(&self) -> (text: String)
        ensures
            text@ == self.spec_debug_text(),
    {
        let mut text = String::new();
        text.append("IntermediatePeekConfig { peek_interval_ms: ");
        append_decimal(&mut text, self.peek_interval_ms);
        text.append(", max_groups_to_peek: ");
        match self.max_groups_to_peek {
            Some(n) => {
                text.append("Some(");
                append_decimal(&mut text, n as u64);
                text.append(")");
            },
            None => {
                text.append("None");
            },
        }
        text.append(", callback: \"<function>\" }");
        assert(text@ =~= self.spec_debug_text());
        text
    }
}

impl<F> Clone for IntermediatePeekConfig<F> {
    /// The same configuration; the callback is shared.
    fn clone(&self) -> (copy: Self)
        ensures
            copy == *self,
    {
        IntermediatePeekConfig {
            peek_interval_ms: self.peek_interval_ms,
            callback: Arc::clone(&self.callback),
            max_groups_to_peek: self.max_groups_to_peek,
        }
    }
}

} // verus!
