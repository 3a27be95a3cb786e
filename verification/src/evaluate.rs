//! Putting the results of modules that were computed side by side back into
//! the order in which they were requested.

use vstd::prelude::*;
use crate::segment::{Module, Segment};

verus! {

/// The result of one computation: the position of its request among those
/// that were dispatched together, and the module that came back, if any.
pub struct Completed {
    pub position: usize,
    pub module: Option<Module>,
}

/// Whether one of the results answers the request at position `p`.
pub open spec fn answers(completed: Seq<Completed>, p: int) -> bool {
    exists|i: int| 0 <= i < completed.len() && (#[trigger] completed[i]).position == p
}

/// Whether the results answer each of `count` requests exactly once.
pub open spec fn covers(completed: Seq<Completed>, count: nat) -> bool {
    &&& completed.len() == count
    &&& forall|i: int| 0 <= i < completed.len() ==> (#[trigger] completed[i]).position < count
    &&& forall|i: int, j: int|
        0 <= i < j < completed.len() ==> (#[trigger] completed[i]).position != (
        #[trigger] completed[j]).position
    &&& forall|p: int| 0 <= p < count ==> #[trigger] answers(completed, p)
}

/// The index of the result for the request at position `p`.
pub open spec fn index_of_position(completed: Seq<Completed>, p: int) -> int {
    choose|i: int| 0 <= i < completed.len() && (#[trigger] completed[i]).position == p
}

/// The results in the order of their requests.
pub open spec fn arranged(completed: Seq<Completed>, count: nat) -> Seq<Option<Module>> {
    Seq::new(count, |p: int| completed[index_of_position(completed, p)].module)
}

/// The modules that came back, in order, without the gaps.
pub open spec fn present(results: Seq<Option<Module>>) -> Seq<Module>
    decreases results.len(),
{
    if results.len() == 0 {
        Seq::empty()
    } else {
        let before = present(results.drop_last());
        match results.last() {
            Some(module) => before.push(module),
            None => before,
        }
    }
}

/// The segments of the given modules, one module after the other.
pub open spec fn all_segments(modules: Seq<Module>) -> Seq<Segment>
    decreases modules.len(),
{
    if modules.len() == 0 {
        Seq::empty()
    } else {
        all_segments(modules.drop_last()) + modules.last().segments@
    }
}

/// Whatever the order in which the computations finished, arranging their
/// results gives what computing the requests one after the other gives.
pub proof fn lemma_completion_order_is_irrelevant(
    sequential: Seq<Option<Module>>,
    completed: Seq<Completed>,
)
    requires
        covers(completed, sequential.len()),
        forall|i: int|
            0 <= i < completed.len() ==> (#[trigger] completed[i]).module
                == sequential[completed[i].position as int],
    ensures
        arranged(completed, sequential.len()) == sequential,
        all_segments(present(arranged(completed, sequential.len()))) == all_segments(
            present(sequential),
        ),
{
    assert forall|p: int| 0 <= p < sequential.len() implies arranged(
        completed,
        sequential.len(),
    )[p] == sequential[p] by {
        let i = index_of_position(completed, p);
        assert(answers(completed, p));
        assert(0 <= i < completed.len() && completed[i].position == p);
    }
    assert(arranged(completed, sequential.len()) =~= sequential);
}

/// Puts the results of `count` requests in the order of the requests.
/// Returns `None` unless every request is answered exactly once.
pub fn arrange(count: usize, completed: Vec<Completed>) -> (results: Option<Vec<Option<Module>>>)
    ensures
        results is Some <==> covers(completed@, count as nat),
        results is Some ==> results->0@ == arranged(completed@, count as nat),
{
    if completed.len() != count {
        return None;
    }
    let mut slots: Vec<Option<Module>> = Vec::new();
    let mut filled: Vec<bool> = Vec::new();
    let mut n: usize = 0;
    while n < count
        invariant
            n <= count,
            slots@.len() == n,
            filled@.len() == n,
            forall|p: int| 0 <= p < n ==> !filled@[p],
        decreases count - n,
    {
        slots.push(None);
        filled.push(false);
        n += 1;
    }
    let ghost all = completed@;
    for item in iter: completed
        invariant
            iter.seq() == all,
            all.len() == count,
            slots@.len() == count,
            filled@.len() == count,
            forall|i: int| 0 <= i < iter.index() ==> (#[trigger] all[i]).position < count,
            forall|i: int, j: int|
                0 <= i < j < iter.index() ==> (#[trigger] all[i]).position != (
                #[trigger] all[j]).position,
            forall|i: int|
                0 <= i < iter.index() ==> filled@[(#[trigger] all[i]).position as int]
                    && slots@[all[i].position as int] == all[i].module,
            forall|p: int|
                0 <= p < count && filled@[p] ==> exists|i: int|
                    0 <= i < iter.index() && (#[trigger] all[i]).position == p,
    {
        let ghost k = iter.index();
        assert(all[k] == item);
        if item.position >= count {
            return None;
        }
        if filled[item.position] {
            proof {
                let i = choose|i: int| 0 <= i < k && (#[trigger] all[i]).position == item.position;
                assert(all[i].position == all[k].position);
            }
            return None;
        }
        filled.set(item.position, true);
        slots.set(item.position, item.module);
    }
    let mut p: usize = 0;
    while p < count
        invariant
            p <= count,
            all == completed@,
            all.len() == count,
            filled@.len() == count,
            forall|i: int|
                0 <= i < count ==> filled@[(#[trigger] all[i]).position as int],
            forall|q: int| 0 <= q < p ==> filled@[q],
        decreases count - p,
    {
        if !filled[p] {
            proof {
                if covers(all, count as nat) {
                    assert(answers(all, p as int));
                    let i = choose|i: int|
                        0 <= i < all.len() && (#[trigger] all[i]).position == p;
                    assert(filled@[all[i].position as int]);
                }
            }
            return None;
        }
        p += 1;
    }
    proof {
        assert forall|q: int| 0 <= q < count implies #[trigger] answers(all, q) by {
            assert(filled@[q]);
            let i = choose|i: int| 0 <= i < count && (#[trigger] all[i]).position == q;
            assert(0 <= i < all.len() && all[i].position == q);
        }
        assert(covers(all, count as nat));
        assert forall|q: int| 0 <= q < count implies slots@[q] == arranged(all, count as nat)[q] by {
            let i = index_of_position(all, q);
            assert(answers(all, q));
            assert(0 <= i < all.len() && all[i].position == q);
        }
        assert(slots@ =~= arranged(all, count as nat));
    }
    Some(slots)
}

/// Drops the gaps from a list of results.
pub fn modules_present(results: Vec<Option<Module>>) -> (modules: Vec<Module>)
    ensures
        modules@ == present(results@),
{
    let ghost all = results@;
    let mut modules: Vec<Module> = Vec::new();
    for result in iter: results
        invariant
            iter.seq() == all,
            modules@ == present(all.take(iter.index())),
    {
        proof {
            assert(all.take(iter.index() + 1).drop_last() =~= all.take(iter.index()));
        }
        match result {
            Some(module) => {
                modules.push(module);
            },
            None => {},
        }
    }
    proof {
        assert(all.take(all.len() as int) =~= all);
    }
    modules
}

/// Joins the segments of the given modules, one module after the other.
pub fn segments_of(modules: Vec<Module>) -> (segments: Vec<Segment>)
    ensures
        segments@ == all_segments(modules@),
{
    let ghost all = modules@;
    let mut segments: Vec<Segment> = Vec::new();
    for module in iter: modules
        invariant
            iter.seq() == all,
            segments@ == all_segments(all.take(iter.index())),
    {
        proof {
            assert(all.take(iter.index() + 1).drop_last() =~= all.take(iter.index()));
        }
        let mut module = module;
        segments.append(&mut module.segments);
    }
    proof {
        assert(all.take(all.len() as int) =~= all);
    }
    segments
}

/// The modules that came back for `count` requests, in the order of the
/// requests, whatever the order in which the computations finished.
/// Returns `None` unless every request is answered exactly once.
pub fn evaluate_in_order(count: usize, completed: Vec<Completed>) -> (modules: Option<
    Vec<Module>,
>)
    ensures
        modules is Some <==> covers(completed@, count as nat),
        modules is Some ==> modules->0@ == present(arranged(completed@, count as nat)),
{
    match arrange(count, completed) {
        Some(results) => Some(modules_present(results)),
        None => None,
    }
}

/// The segments of the modules that came back for `count` requests, in the
/// order of the requests, whatever the order in which the computations
/// finished. Returns `None` unless every request is answered exactly once.
pub fn ordered_segments(count: usize, completed: Vec<Completed>) -> (segments: Option<
    Vec<Segment>,
>)
    ensures
        segments is Some <==> covers(completed@, count as nat),
        segments is Some ==> segments->0@ == all_segments(
            present(arranged(completed@, count as nat)),
        ),
{
    match evaluate_in_order(count, completed) {
        Some(modules) => Some(segments_of(modules)),
        None => None,
    }
}

} // verus!
