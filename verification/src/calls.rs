//! Calls of a callback, each of which is noted.
use datafusion_common::DataFusionError;
use datafusion_execution::TaskContext;
use vstd::prelude::*;

verus! {

/// The calls that were made of a callback, in order. A log is begun once, where a task begins; it
/// can be neither copied nor set back, and only [`Receives::receive`] adds to it.
pub struct CallLog<T> {
    calls: Ghost<Seq<(T, Result<(), DataFusionError>)>>,
}

impl<T> View for CallLog<T> {
    type V = Seq<(T, Result<(), DataFusionError>)>;

    /// What the callback was given in each call, and what it answered.
    closed spec fn view(&self) -> Seq<(T, Result<(), DataFusionError>)> {
        self.calls@
    }
}

impl<T> CallLog<T> {
    /// The log of a task that has made no calls yet.
    pub(crate) fn begin(_context: &TaskContext) -> (log: Self)
        ensures
            log@.len() == 0,
    {
        CallLog { calls: Ghost(Seq::empty()) }
    }
}

/// What can be called with a value, in such a way that each call is noted.
pub trait Receives<T> {
    /// Whether it may be called with `argument`.
    spec fn accepts(&self, argument: T) -> bool;

    /// Whether `answer` may come of a call with `argument`.
    spec fn gives(&self, argument: T, answer: Result<(), DataFusionError>) -> bool;

    /// Makes the one call, and notes it.
    fn receive(&self, argument: T, log: &mut CallLog<T>)
        requires
            self.accepts(argument),
        ensures
            exists|answer: Result<(), DataFusionError>|
                {
                    &&& #[trigger] self.gives(argument, answer)
                    &&& final(log)@ == old(log)@.push((argument, answer))
                },
    ;
}

impl<T, F> Receives<T> for F where F: Fn(T) -> Result<(), DataFusionError> {
    open spec fn accepts(&self, argument: T) -> bool {
        call_requires(*self, (argument,))
    }

    open spec fn gives(&self, argument: T, answer: Result<(), DataFusionError>) -> bool {
        call_ensures(*self, (argument,), answer)
    }

    fn receive(&self, argument: T, log: &mut CallLog<T>) {
        let ghost given = argument;
        let answer = self(argument);
        proof {
            log.calls@ = log.calls@.push((given, answer));
            assert(self.gives(given, answer));
        }
    }
}

} // verus!
