//! The errors of an aggregation.
use arrow::error::ArrowError;
use datafusion_common::DataFusionError;
use vstd::prelude::*;

verus! {

/// Declares `datafusion_common::DataFusionError`, which Verus carries without looking inside.
#[verifier::external_type_specification]
#[verifier::external_body]
pub struct ExDataFusionError(DataFusionError);

/// Declares `arrow::error::ArrowError`, which Verus carries without looking inside.
#[verifier::external_type_specification]
#[verifier::external_body]
pub struct ExArrowError(ArrowError);

/// Why an aggregation, or a look at its intermediate results, failed.
#[derive(Debug)]
pub enum AggregateError {
    /// The aggregation was asked for something that it does not do.
    Internal(String),
    /// An expression, a filter, an accumulator, the input or the memory pool failed.
    DataFusion(DataFusionError),
    /// The columns do not make a batch of the schema.
    Arrow(ArrowError),
}

} // verus!
