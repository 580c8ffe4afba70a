//! Sequences that are made item by item until something ends them.
use vstd::prelude::*;

verus! {

/// The items at the places below `n`, in order, up to the one with which the sequence so far
/// `ends`.
pub open spec fn up_to<T>(
    item: spec_fn(int) -> T,
    ends: spec_fn(Seq<T>) -> bool,
    n: nat,
) -> Seq<T>
    decreases n,
{
    if n == 0 {
        Seq::empty()
    } else {
        let earlier = up_to(item, ends, (n - 1) as nat);
        if earlier.len() > 0 && ends(earlier) {
            earlier
        } else {
            earlier.push(item(n - 1))
        }
    }
}

/// A sequence of these items that nothing ends before its last, and that goes on unless it is
/// ended, is the one that [`up_to`] gives.
pub proof fn lemma_up_to<T>(
    item: spec_fn(int) -> T,
    ends: spec_fn(Seq<T>) -> bool,
    n: nat,
    given: Seq<T>,
)
    requires
        given.len() <= n,
        forall|i: int| 0 <= i < given.len() ==> #[trigger] given[i] == item(i),
        forall|k: int| 0 < k < given.len() ==> !ends(#[trigger] given.take(k)),
        given.len() < n ==> given.len() > 0 && ends(given),
    ensures
        up_to(item, ends, n) == given,
{
    lemma_up_to_part(item, ends, n, given, n);
    assert(given.take(given.len() as int) =~= given);
}

proof fn lemma_up_to_part<T>(
    item: spec_fn(int) -> T,
    ends: spec_fn(Seq<T>) -> bool,
    n: nat,
    given: Seq<T>,
    part: nat,
)
    requires
        part <= n,
        given.len() <= n,
        forall|i: int| 0 <= i < given.len() ==> #[trigger] given[i] == item(i),
        forall|k: int| 0 < k < given.len() ==> !ends(#[trigger] given.take(k)),
        given.len() < n ==> given.len() > 0 && ends(given),
    ensures
        up_to(item, ends, part) == given.take(
            if part <= given.len() {
                part as int
            } else {
                given.len() as int
            },
        ),
    decreases part,
{
    if part > 0 {
        lemma_up_to_part(item, ends, n, given, (part - 1) as nat);
        assert(given.take(given.len() as int) =~= given);
        if part <= given.len() {
            assert(given[part - 1] == item(part - 1));
            assert(given.take(part as int) =~= given.take(part - 1).push(given[part - 1]));
        }
    }
}

} // verus!
