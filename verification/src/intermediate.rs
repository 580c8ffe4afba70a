//! The batch of intermediate results: the states of all accumulators, side by side in one row.
use crate::columns::{
    all_single_row, all_fit, batch_rows, is_batch_of, make_batch, scalar_columns,
    scalars_to_columns, Batch, Column,
};
use crate::error::AggregateError;
use crate::mode::AggregateMode;
use crate::prefix::{lemma_up_to, up_to};
use arrow::datatypes::Schema;
use datafusion_common::{DataFusionError, ScalarValue};
use std::sync::Arc;
use vstd::prelude::*;

verus! {

/// The text of the error for a mode whose intermediate results cannot be looked at.
pub open spec fn unsupported_mode() -> Seq<char> {
    "Intermediate peeking is only supported for Final/Single aggregation modes"@
}

/// The columns of one row that an accumulator's state comes to, or the error: the accumulator's
/// own, or that of the first scalar that cannot be turned into a column.
pub open spec fn state_columns(state: Result<Vec<ScalarValue>, DataFusionError>) -> Result<
    Seq<Column>,
    DataFusionError,
> {
    match state {
        Ok(scalars) => scalar_columns(scalars@),
        Err(e) => Err(e),
    }
}

/// The columns of the first `n` states, one state's after the other's.
pub open spec fn side_by_side(
    states: Seq<Result<Vec<ScalarValue>, DataFusionError>>,
    n: nat,
) -> Seq<Column>
    decreases n,
{
    if n == 0 {
        Seq::empty()
    } else {
        side_by_side(states, (n - 1) as nat) + state_columns(states[n - 1])->Ok_0
    }
}

/// Whether the states that this many accumulators gave come to `made`: the batch of all their
/// columns where each gave some, and otherwise the error of the last one asked. None is asked
/// after that.
pub open spec fn shows(
    states: Seq<Result<Vec<ScalarValue>, DataFusionError>>,
    accumulators: nat,
    schema: Schema,
    made: Result<Batch, AggregateError>,
) -> bool {
    &&& states.len() <= accumulators
    &&& forall|i: int| 0 <= i < states.len() - 1 ==> state_columns(#[trigger] states[i]) is Ok
    &&& if states.len() == 0 || state_columns(states.last()) is Ok {
        &&& states.len() == accumulators
        &&& is_batch_of(schema, side_by_side(states, states.len()), made)
    } else {
        made == Err::<Batch, _>(AggregateError::DataFusion(state_columns(states.last())->Err_0))
    }
}

/// The states that accumulators give when each answers as `answer` says, up to the first that does
/// not come to columns. `answer` gives the reply of an accumulator, and the accumulator after it.
pub open spec fn states_given<A>(
    accumulators: Seq<A>,
    answer: spec_fn(A) -> (Result<Vec<ScalarValue>, DataFusionError>, A),
) -> Seq<Result<Vec<ScalarValue>, DataFusionError>> {
    up_to(
        |i: int| answer(accumulators[i]).0,
        |states: Seq<Result<Vec<ScalarValue>, DataFusionError>>|
            state_columns(states.last()) is Err,
        accumulators.len(),
    )
}

/// Whether `made` is the batch of intermediate results of accumulators that answer as `answer`
/// says, and `after` is what becomes of them: those that were asked are as `answer` leaves them,
/// the others as they were. A mode that has nothing to show gives an error, and none is asked.
pub open spec fn builds<A>(
    mode: AggregateMode,
    accumulators: Seq<A>,
    schema: Schema,
    answer: spec_fn(A) -> (Result<Vec<ScalarValue>, DataFusionError>, A),
    made: Result<Batch, AggregateError>,
    after: Seq<A>,
) -> bool {
    if mode.spec_peekable() {
        let states = states_given(accumulators, answer);
        &&& shows(states, accumulators.len(), schema, made)
        &&& after == Seq::new(
            accumulators.len(),
            |i: int|
                if i < states.len() {
                    answer(accumulators[i]).1
                } else {
                    accumulators[i]
                },
        )
    } else {
        &&& made matches Err(AggregateError::Internal(message))
        &&& message@ == unsupported_mode()
        &&& after == accumulators
    }
}

/// Whether the accumulator at place `i` was asked for its state.
pub open spec fn was_asked(
    states: Seq<Result<Vec<ScalarValue>, DataFusionError>>,
    i: int,
) -> bool {
    0 <= i < states.len()
}

/// Asks the accumulators of an aggregation that can be shown in turn, and makes the batch of their
/// states.
fn collect_states<A, S>(
    accumulators: &mut Vec<A>,
    schema: &Arc<Schema>,
    state: &S,
) -> (collected: (
    Result<Batch, AggregateError>,
    Ghost<Seq<Result<Vec<ScalarValue>, DataFusionError>>>,
)) where
    S: Fn(&mut A) -> Result<Vec<ScalarValue>, DataFusionError>,

    requires
        forall|accumulator: &mut A| call_requires(*state, (accumulator,)),
        forall|accumulator: &mut A, scalars: Vec<ScalarValue>|
            #[trigger] call_ensures(*state, (accumulator,), Ok::<_, DataFusionError>(scalars))
                ==> all_fit(scalars@),
    ensures
        final(accumulators)@.len() == old(accumulators)@.len(),
        shows(collected.1@, old(accumulators)@.len(), **schema, collected.0),
        forall|i: int|
            #![trigger was_asked(collected.1@, i)]
            #![trigger collected.1@[i]]
            was_asked(collected.1@, i) ==> exists|asked: &mut A|
                {
                    &&& #[trigger] call_ensures(*state, (asked,), collected.1@[i])
                    &&& *asked == old(accumulators)@[i]
                    &&& *final(asked) == final(accumulators)@[i]
                },
        forall|i: int|
            collected.1@.len() <= i < old(accumulators)@.len()
                ==> #[trigger] final(accumulators)@[i] == old(accumulators)@[i],
        collected.0 matches Ok(batch) ==> batch_rows(batch) == 1,
        (forall|asked: &mut A, reply: Result<Vec<ScalarValue>, DataFusionError>|
            #[trigger] call_ensures(*state, (asked,), reply) ==> *final(asked) == *asked)
            ==> final(accumulators)@ == old(accumulators)@,
{
    let ghost before = accumulators@;
    let ghost mut states: Seq<Result<Vec<ScalarValue>, DataFusionError>> = Seq::empty();
    let mut columns: Vec<Column> = Vec::new();
    let mut i: usize = 0;
    while i < accumulators.len()
        invariant
            forall|accumulator: &mut A| call_requires(*state, (accumulator,)),
            forall|accumulator: &mut A, scalars: Vec<ScalarValue>|
                #[trigger] call_ensures(*state, (accumulator,), Ok::<_, DataFusionError>(scalars))
                    ==> all_fit(scalars@),
            before == old(accumulators)@,
            accumulators@.len() == before.len(),
            i <= before.len(),
            states.len() == i,
            columns@ == side_by_side(states, i as nat),
            all_single_row(columns@),
            forall|k: int| 0 <= k < i ==> state_columns(#[trigger] states[k]) is Ok,
            forall|k: int| #[trigger]
                was_asked(states, k) ==> exists|asked: &mut A|
                    {
                        &&& #[trigger] call_ensures(*state, (asked,), states[k])
                        &&& *asked == before[k]
                        &&& *final(asked) == accumulators@[k]
                    },
            forall|k: int| i <= k < before.len() ==> #[trigger] accumulators@[k] == before[k],
            (forall|asked: &mut A, reply: Result<Vec<ScalarValue>, DataFusionError>|
                #[trigger] call_ensures(*state, (asked,), reply) ==> *final(asked) == *asked)
                ==> accumulators@ == before,
        decreases before.len() - i,
    {
        let ghost during = accumulators@;
        let reply = state(&mut accumulators[i]);
        proof {
            let earlier = states;
            states = states.push(reply);
            lemma_side_by_side_prefix(earlier, states, i as nat);
            assert forall|k: int| #[trigger] was_asked(states, k) implies exists|asked: &mut A|
                {
                    &&& #[trigger] call_ensures(*state, (asked,), states[k])
                    &&& *asked == before[k]
                    &&& *final(asked) == accumulators@[k]
                } by {
                if k < i {
                    assert(was_asked(earlier, k));
                    assert(states[k] == earlier[k] && accumulators@[k] == during[k]);
                } else {
                    assert(states[k] == reply && during[k] == before[k]);
                }
            }
        }
        let converted = match reply {
            Ok(scalars) => scalars_to_columns(&scalars),
            Err(e) => Err(e),
        };
        match converted {
            Ok(more) => {
                let mut more = more;
                columns.append(&mut more);
            },
            Err(e) => {
                return (Err(AggregateError::DataFusion(e)), Ghost(states));
            },
        }
        i = i + 1;
    }
    (make_batch(schema, columns), Ghost(states))
}

/// Makes the batch of intermediate results of an aggregation: a single row with the state of
/// every accumulator, under `schema`. The accumulators are asked in turn with `state`, until one
/// fails. Partial aggregations have nothing to show. Where an accumulator's answer is a function of
/// the accumulator, so is the outcome: [`builds`] says which.
pub fn build_intermediate_batch<A, S>(
    accumulators: &mut Vec<A>,
    mode: &AggregateMode,
    schema: &Arc<Schema>,
    state: &S,
) -> (made: Result<Batch, AggregateError>) where
    S: Fn(&mut A) -> Result<Vec<ScalarValue>, DataFusionError>,

    requires
        forall|accumulator: &mut A| call_requires(*state, (accumulator,)),
        forall|accumulator: &mut A, scalars: Vec<ScalarValue>|
            #[trigger] call_ensures(*state, (accumulator,), Ok::<_, DataFusionError>(scalars))
                ==> all_fit(scalars@),
    ensures
        final(accumulators)@.len() == old(accumulators)@.len(),
        !mode.spec_peekable() ==> {
            &&& made matches Err(AggregateError::Internal(message))
            &&& message@ == unsupported_mode()
            &&& *final(accumulators) == *old(accumulators)
        },
        mode.spec_peekable() ==> exists|states: Seq<Result<Vec<ScalarValue>, DataFusionError>>|
            {
                &&& #[trigger] shows(states, old(accumulators)@.len(), **schema, made)
                &&& forall|i: int|
                    #![trigger was_asked(states, i)]
                    #![trigger states[i]]
                    was_asked(states, i) ==> exists|asked: &mut A|
                        {
                            &&& #[trigger] call_ensures(*state, (asked,), states[i])
                            &&& *asked == old(accumulators)@[i]
                            &&& *final(asked) == final(accumulators)@[i]
                        }
                &&& forall|i: int|
                    states.len() <= i < old(accumulators)@.len()
                        ==> #[trigger] final(accumulators)@[i] == old(accumulators)@[i]
            },
        made matches Ok(batch) ==> batch_rows(batch) == 1,
        (forall|asked: &mut A, reply: Result<Vec<ScalarValue>, DataFusionError>|
            #[trigger] call_ensures(*state, (asked,), reply) ==> *final(asked) == *asked)
            ==> final(accumulators)@ == old(accumulators)@,
        forall|answer: spec_fn(A) -> (Result<Vec<ScalarValue>, DataFusionError>, A)|
            (forall|asked: &mut A, reply: Result<Vec<ScalarValue>, DataFusionError>|
                #[trigger] call_ensures(*state, (asked,), reply) ==> answer(*asked) == (
                    reply,
                    *final(asked),
                )) ==> #[trigger] builds(
                *mode,
                old(accumulators)@,
                **schema,
                answer,
                made,
                final(accumulators)@,
            ),
{
    if !mode.peekable() {
        return Err(
            AggregateError::Internal(
                "Intermediate peeking is only supported for Final/Single aggregation modes".to_owned(),
            ),
        );
    }
    let (made, Ghost(states)) = collect_states(accumulators, schema, state);
    proof {
        assert forall|answer: spec_fn(A) -> (Result<Vec<ScalarValue>, DataFusionError>, A)|
            (forall|asked: &mut A, reply: Result<Vec<ScalarValue>, DataFusionError>|
                #[trigger] call_ensures(*state, (asked,), reply) ==> answer(*asked) == (
                    reply,
                    *final(asked),
                )) implies #[trigger] builds(
            *mode,
            old(accumulators)@,
            **schema,
            answer,
            made,
            accumulators@,
        ) by {
            assert forall|i: int| was_asked(states, i) implies answer(old(accumulators)@[i]) == (
                #[trigger] states[i],
                accumulators@[i],
            ) by {}
            lemma_states_given(old(accumulators)@, answer, **schema, made, states);
            let after = Seq::new(
                old(accumulators)@.len(),
                |i: int|
                    if i < states.len() {
                        answer(old(accumulators)@[i]).1
                    } else {
                        old(accumulators)@[i]
                    },
            );
            assert forall|i: int| 0 <= i < after.len() implies after[i] == accumulators@[i] by {
                if i < states.len() {
                    assert(answer(old(accumulators)@[i]) == (states[i], accumulators@[i]));
                }
            }
            assert(accumulators@ =~= after);
        }
    }
    made
}

/// The states that show a batch are those that the accumulators give by their answers.
proof fn lemma_states_given<A>(
    accumulators: Seq<A>,
    answer: spec_fn(A) -> (Result<Vec<ScalarValue>, DataFusionError>, A),
    schema: Schema,
    made: Result<Batch, AggregateError>,
    states: Seq<Result<Vec<ScalarValue>, DataFusionError>>,
)
    requires
        shows(states, accumulators.len(), schema, made),
        forall|i: int| 0 <= i < states.len() ==> #[trigger] states[i] == answer(accumulators[i]).0,
    ensures
        states_given(accumulators, answer) == states,
{
    let ends = |states: Seq<Result<Vec<ScalarValue>, DataFusionError>>|
        state_columns(states.last()) is Err;
    assert forall|k: int| 0 < k < states.len() implies !ends(#[trigger] states.take(k)) by {
        assert(states.take(k).last() == states[k - 1]);
    }
    lemma_up_to(|i: int| answer(accumulators[i]).0, ends, accumulators.len(), states);
}

/// The columns of the first `n` states do not depend on later ones.
proof fn lemma_side_by_side_prefix(
    one: Seq<Result<Vec<ScalarValue>, DataFusionError>>,
    other: Seq<Result<Vec<ScalarValue>, DataFusionError>>,
    n: nat,
)
    requires
        n <= one.len(),
        n <= other.len(),
        forall|k: int| 0 <= k < n ==> one[k] == other[k],
    ensures
        side_by_side(one, n) == side_by_side(other, n),
    decreases n,
{
    if n > 0 {
        lemma_side_by_side_prefix(one, other, (n - 1) as nat);
    }
}

} // verus!
