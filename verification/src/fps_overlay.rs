//! The frame-rate graph keeps the latest samples up to a capacity.
use vstd::prelude::*;

use std::collections::VecDeque;

verus! {

/// The samples after `sample` is appended to `graph` and the oldest ones are
/// dropped down to `capacity`.
pub open spec fn bounded_push<T>(graph: Seq<T>, sample: T, capacity: nat) -> Seq<T> {
    let all = graph.push(sample);
    if all.len() > capacity {
        all.skip(all.len() - capacity)
    } else {
        all
    }
}

/// Appends `sample` to the graph, then drops the oldest samples while there
/// are more than `capacity`.
pub fn push_graph_sample<T>(graph: &mut VecDeque<T>, sample: T, capacity: usize)
    ensures
        final(graph)@ == bounded_push(old(graph)@, sample, capacity as nat),
{
    graph.push_back(sample);
    let ghost all = graph@;
    while graph.len() > capacity
        invariant
            all == old(graph)@.push(sample),
            graph@.len() <= all.len(),
            graph@.len() < all.len() ==> graph@.len() >= capacity,
            graph@ == all.skip(all.len() - graph@.len()),
        decreases graph@.len(),
    {
        let ghost before = graph@;
        let _ = graph.pop_front();
        assert(graph@ =~= all.skip(all.len() - graph@.len())) by {
            assert(graph@ == before.subrange(1, before.len() as int));
        }
    }
    assert(graph@ =~= bounded_push(old(graph)@, sample, capacity as nat));
}

/// The graph never holds more than its capacity and always ends with the
/// latest sample.
pub proof fn law_graph_bounded<T>(graph: Seq<T>, sample: T, capacity: nat)
    requires
        capacity >= 1,
    ensures
        bounded_push(graph, sample, capacity).len() <= capacity,
        bounded_push(graph, sample, capacity).last() == sample,
{
}

/// Below capacity no sample is dropped; at or above it, the graph keeps
/// exactly the `capacity` latest samples.
pub proof fn law_graph_keeps_latest<T>(graph: Seq<T>, sample: T, capacity: nat)
    ensures
        graph.len() + 1 <= capacity ==> bounded_push(graph, sample, capacity) == graph.push(
            sample,
        ),
        graph.len() + 1 > capacity ==> bounded_push(graph, sample, capacity).len() == capacity,
        forall|i: int|
            0 <= i < bounded_push(graph, sample, capacity).len() ==> #[trigger] bounded_push(
                graph,
                sample,
                capacity,
            )[i] == graph.push(sample)[graph.len() + 1 - bounded_push(graph, sample, capacity).len()
                + i],
{
}

} // verus!
