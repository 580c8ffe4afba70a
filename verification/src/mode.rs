//! The modes of an aggregation.
use vstd::prelude::*;

verus! {

/// The stage of an aggregation that one operator carries out.
#[derive(Debug, Clone, Copy, PartialEq, Eq, Structural)]
pub enum AggregateMode {
    /// Turns rows of one partition into partial states.
    Partial,
    /// Merges the partial states of all partitions into final values.
    Final,
    /// Merges partial states that are already partitioned by group.
    FinalPartitioned,
    /// Turns rows of a single partition into final values.
    Single,
    /// Turns rows that are already partitioned by group into final values.
    SinglePartitioned,
}

impl AggregateMode {
    /// Whether the accumulators are fed partial states, to merge, rather than rows.
    pub open spec fn spec_merges(self) -> bool {
        self is Final || self is FinalPartitioned
    }

    /// Whether the accumulators are fed partial states, to merge, rather than rows.
    pub fn merges(&self) -> (merges: bool)
        ensures
            merges == self.spec_merges(),
    {
        match self {
            AggregateMode::Partial | AggregateMode::Single | AggregateMode::SinglePartitioned =>
                false,
            AggregateMode::Final | AggregateMode::FinalPartitioned => true,
        }
    }

    /// Whether intermediate results can be looked at in this mode.
    pub open spec fn spec_peekable(self) -> bool {
        !(self is Partial)
    }

    /// Whether intermediate results can be looked at in this mode.
    pub fn peekable(&self) -> (peekable: bool)
        ensures
            peekable == self.spec_peekable(),
    {
        match self {
            AggregateMode::Partial => false,
            AggregateMode::Final
            | AggregateMode::FinalPartitioned
            | AggregateMode::Single
            | AggregateMode::SinglePartitioned => true,
        }
    }
}

} // verus!
