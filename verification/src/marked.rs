//! Logs whose entries carry a mark: an item, and whether it was taken.

use vstd::prelude::*;

verus! {

/// The items of `log` whose mark is set, in the order of the log.
pub open spec fn picked<T>(log: Seq<(T, bool)>) -> Seq<T>
    decreases log.len(),
{
    if log.len() == 0 {
        Seq::empty()
    } else if log.last().1 {
        picked(log.drop_last()).push(log.last().0)
    } else {
        picked(log.drop_last())
    }
}

/// The places in `log` of the entries whose mark is set, in order.
pub open spec fn origins<T>(log: Seq<(T, bool)>) -> Seq<int>
    decreases log.len(),
{
    if log.len() == 0 {
        Seq::empty()
    } else if log.last().1 {
        origins(log.drop_last()).push(log.len() - 1)
    } else {
        origins(log.drop_last())
    }
}

/// No more items are picked than the log holds.
pub proof fn lemma_picked_len<T>(log: Seq<(T, bool)>)
    ensures
        picked(log).len() <= log.len(),
    decreases log.len(),
{
    if log.len() > 0 {
        lemma_picked_len(log.drop_last());
    }
}

/// Appending an entry appends its item to the picked ones when its mark is
/// set, and leaves them alone otherwise.
pub proof fn lemma_picked_push<T>(log: Seq<(T, bool)>, item: T, mark: bool)
    ensures
        picked(log.push((item, mark))) == if mark {
            picked(log).push(item)
        } else {
            picked(log)
        },
{
    assert(log.push((item, mark)).drop_last() == log);
}

} // verus!
