//! One turn of the scheduler, of a worker and of the writer.

use crate::config::ChannelParams;
use crate::network::NetworkTopology;
use crate::routing::node::PreparedNode;
use crate::routing::scheduler::{Dispatch, SchedulerMessage, SchedulerState};
use crate::routing::worker::{
    chunk, dry_nodes, error_report, failures, known_nodes, planned, ready_nodes, resolved,
    BatchPlan, BatchState, Inputs, NodeOutcome, WorkerMessage,
};
use crate::routing::writer::{batch_size_for, is_last, WriterEvent, WriterState, Written};
use crate::text::decimal;
use vstd::prelude::*;

verus! {

/// A run starts with every node ready that has no upstream nodes on record, and with every other
/// node waiting for as many as it has; nothing runs, and the first worker is next.
pub proof fn law_headwaters_start_ready<A>(
    topology: NetworkTopology<A>,
    workers: int,
    st: SchedulerState,
    id: u32,
)
    requires
        st.is_initial(topology.drainage(), workers),
    ensures
        ({
            let waits = topology.upstream_counts@.contains_key(id)
                && topology.upstream_counts@[id] > 0;
            &&& st.ready.no_duplicates()
            &&& st.ready.contains(id) <==> topology.nodes@.contains_key(id) && !waits
            &&& st.pending.contains_key(id) <==> topology.nodes@.contains_key(id) && waits
            &&& st.pending.contains_key(id) ==> st.pending[id] == topology.upstream_counts@[id]
            &&& st.running == 0
            &&& st.next_worker == 0
            &&& st.workers == workers
        }),
{
    let net = topology.drainage();
    assert(net.contains(id) <==> topology.nodes@.contains_key(id));
    assert(st.ready.contains(id) <==> net.contains(id) && net.count(id) == 0);
}

/// A completion lets the node below wait for one less. A node that waits for no more moves to the
/// front of the ready nodes and waits no longer. Nothing else changes but that one node less runs.
pub proof fn law_a_completion_tells_the_node_below<A>(
    topology: NetworkTopology<A>,
    st: SchedulerState,
    id: u32,
    other: u32,
)
    ensures
        ({
            let next = st.completed(topology.drainage(), id);
            let below = topology.nodes@[id].downstream_id;
            let waited = topology.nodes@.contains_key(id) && st.pending.contains_key(below);
            &&& next.running == st.running - 1
            &&& next.workers == st.workers
            &&& next.next_worker == st.next_worker
            &&& !waited ==> next.ready == st.ready && next.pending == st.pending
            &&& waited && st.pending[below] >= 2 ==> {
                &&& next.ready == st.ready
                &&& next.pending.contains_key(below)
                &&& next.pending[below] + 1 == st.pending[below]
            }
            &&& waited && st.pending[below] < 2 ==> {
                &&& next.ready == seq![below] + st.ready
                &&& !next.pending.contains_key(below)
            }
            &&& waited && other != below ==> {
                &&& next.pending.contains_key(other) <==> st.pending.contains_key(other)
                &&& st.pending.contains_key(other) ==> next.pending[other] == st.pending[other]
            }
        }),
{
    let net = topology.drainage();
    assert(net.contains(id) <==> topology.nodes@.contains_key(id));
}

/// The worker after `worker` in turn.
pub open spec fn next_in_turn(worker: int, workers: int) -> int {
    if worker + 1 == workers {
        0
    } else {
        worker + 1
    }
}

proof fn lemma_next_in_turn(a: int, workers: int)
    requires
        workers > 0,
        a >= 0,
    ensures
        0 <= a % workers < workers,
        (a + 1) % workers == next_in_turn(a % workers, workers),
{
    let r = a % workers;
    vstd::arithmetic::div_mod::lemma_fundamental_div_mod(a, workers);
    vstd::arithmetic::div_mod::lemma_mod_bound(a, workers);
    let q = a / workers;
    if r + 1 == workers {
        assert(a + 1 == (q + 1) * workers + 0) by (nonlinear_arith)
            requires
                a == workers * q + r,
                r + 1 == workers,
        ;
        vstd::arithmetic::div_mod::lemma_fundamental_div_mod_converse(a + 1, workers, q + 1, 0);
    } else {
        assert(a + 1 == q * workers + (r + 1)) by (nonlinear_arith)
            requires
                a == workers * q + r,
        ;
        vstd::arithmetic::div_mod::lemma_fundamental_div_mod_converse(a + 1, workers, q, r + 1);
    }
}

/// Every ready node is handed out, in order, to workers that take turns; what waits goes on
/// waiting, and what was handed out runs.
pub proof fn law_workers_take_turns(st: SchedulerState, dispatches: Seq<Dispatch>, k: int)
    requires
        st.well_formed(),
        st.ready.len() > 0 ==> st.workers > 0,
        st.hands_out(dispatches),
    ensures
        dispatches.len() == st.ready.len(),
        0 <= k < dispatches.len() ==> dispatches[k].node == st.ready[k],
        dispatches.len() > 0 ==> dispatches[0].worker == st.next_worker,
        0 <= k < dispatches.len() - 1 ==> dispatches[k + 1].worker == next_in_turn(
            dispatches[k].worker as int,
            st.workers,
        ),
        ({
            let after = st.dispatched();
            &&& after.ready.len() == 0
            &&& after.pending == st.pending
            &&& after.workers == st.workers
            &&& after.running == st.running + st.ready.len()
            &&& after.next_worker == if dispatches.len() == 0 {
                st.next_worker
            } else {
                next_in_turn(dispatches.last().worker as int, st.workers)
            }
        }),
{
    let n = dispatches.len() as int;
    if st.workers > 0 {
        vstd::arithmetic::div_mod::lemma_small_mod(st.next_worker as nat, st.workers as nat);
    }
    if 0 <= k < n {
        let d = dispatches[k];
        lemma_next_in_turn(st.next_worker + k, st.workers);
    }
    if 0 <= k < n - 1 {
        let d = dispatches[k + 1];
    }
    if n > 0 {
        let d = dispatches[0];
        let e = dispatches[n - 1];
        lemma_next_in_turn(st.next_worker + n - 1, st.workers);
    }
}

/// A run rests exactly when nothing runs and nothing is ready.
pub proof fn law_rest_is_nothing_running_and_nothing_ready(st: SchedulerState)
    ensures
        st.idle() <==> st.running == 0 && st.ready == Seq::<u32>::empty(),
{
    if st.ready.len() == 0 {
        assert(st.ready =~= Seq::<u32>::empty());
    }
}

/// A worker goes on looking while its kernel takes several nodes, its queue may hold more, and it
/// has fewer than sixteen. A node it finds comes last in the batch; an empty queue ends the looking,
/// and a shutdown ends the worker too, once the batch is routed.
pub proof fn law_a_worker_fills_its_batch(batch: BatchState, id: u32, batched: bool)
    ensures
        batch.wants_more() <==> batch.batched && batch.queue_open && batch.node_ids.len() < 16,
        ({
            let more = batch.offered(Some(WorkerMessage::ProcessNode(id)));
            &&& more.node_ids == batch.node_ids + seq![id]
            &&& more.batched == batch.batched
            &&& more.queue_open == batch.queue_open
            &&& more.shutdown_after_batch == batch.shutdown_after_batch
        }),
        ({
            let done = batch.offered(None);
            &&& done.node_ids == batch.node_ids
            &&& done.batched == batch.batched
            &&& !done.queue_open
            &&& done.shutdown_after_batch == batch.shutdown_after_batch
        }),
        ({
            let last = batch.offered(Some(WorkerMessage::Shutdown));
            &&& last.node_ids == batch.node_ids
            &&& last.batched == batch.batched
            &&& !last.queue_open
            &&& last.shutdown_after_batch
        }),
        ({
            let first = BatchState::first(id, batched);
            &&& first.node_ids == seq![id]
            &&& first.batched == batched
            &&& first.queue_open
            &&& !first.shutdown_after_batch
        }),
{
    assert(batch.node_ids.push(id) =~= batch.node_ids + seq![id]);
}

/// A node is skipped exactly where it has no channel parameters; any other one is what was found of
/// it, with its own parameters.
pub proof fn law_a_node_is_what_was_found_of_it<T, R: Fn(u32) -> Inputs<T>>(
    channels: Map<u32, ChannelParams<T>>,
    resolve: R,
    id: u32,
    outcome: NodeOutcome<T>,
)
    requires
        resolved(channels, resolve, id, outcome),
    ensures
        outcome is NoParams <==> !channels.contains_key(id),
        outcome is NoInflow ==> call_ensures(resolve, (id,), Inputs::NoInflow),
        outcome is Failed ==> call_ensures(resolve, (id,), Inputs::Failed),
        outcome matches NodeOutcome::Ready { work, params } ==> params == channels[id]
            && call_ensures(resolve, (id,), Inputs::Found(work)),
{
}

proof fn lemma_sorted_concat<T>(
    ids_a: Seq<u32>,
    outcomes_a: Seq<NodeOutcome<T>>,
    ids_b: Seq<u32>,
    outcomes_b: Seq<NodeOutcome<T>>,
)
    requires
        ids_a.len() == outcomes_a.len(),
        ids_b.len() == outcomes_b.len(),
    ensures
        ready_nodes(ids_a + ids_b, outcomes_a + outcomes_b) == ready_nodes(ids_a, outcomes_a)
            + ready_nodes(ids_b, outcomes_b),
        dry_nodes(ids_a + ids_b, outcomes_a + outcomes_b) == dry_nodes(ids_a, outcomes_a)
            + dry_nodes(ids_b, outcomes_b),
        known_nodes(outcomes_a + outcomes_b) == known_nodes(outcomes_a) + known_nodes(outcomes_b),
        failures(outcomes_a + outcomes_b) == failures(outcomes_a) + failures(outcomes_b),
    decreases ids_b.len(),
{
    if ids_b.len() == 0 {
        assert(ids_a + ids_b =~= ids_a);
        assert(outcomes_a + outcomes_b =~= outcomes_a);
        assert(ready_nodes(ids_b, outcomes_b) =~= Seq::empty());
        assert(dry_nodes(ids_b, outcomes_b) =~= Seq::empty());
        assert(ready_nodes(ids_a, outcomes_a) + ready_nodes(ids_b, outcomes_b) =~= ready_nodes(
            ids_a,
            outcomes_a,
        ));
        assert(dry_nodes(ids_a, outcomes_a) + dry_nodes(ids_b, outcomes_b) =~= dry_nodes(
            ids_a,
            outcomes_a,
        ));
    } else {
        lemma_sorted_concat(ids_a, outcomes_a, ids_b.drop_last(), outcomes_b.drop_last());
        assert((ids_a + ids_b).drop_last() =~= ids_a + ids_b.drop_last());
        assert((outcomes_a + outcomes_b).drop_last() =~= outcomes_a + outcomes_b.drop_last());
        assert((outcomes_a + outcomes_b).last() == outcomes_b.last());
        assert((ids_a + ids_b).last() == ids_b.last());
        assert(ready_nodes(ids_a + ids_b, outcomes_a + outcomes_b) =~= ready_nodes(
            ids_a,
            outcomes_a,
        ) + ready_nodes(ids_b, outcomes_b));
        assert(dry_nodes(ids_a + ids_b, outcomes_a + outcomes_b) =~= dry_nodes(ids_a, outcomes_a)
            + dry_nodes(ids_b, outcomes_b));
    }
}

/// A batch is planned node by node: planning two batches one after the other is planning them as
/// one, and of a single node the plan holds exactly what is left to do about it. So each node goes
/// where its own outcome sends it, in the order of the batch.
pub proof fn law_a_batch_is_planned_node_by_node<T>(
    a: BatchPlan<T>,
    b: BatchPlan<T>,
    whole: BatchPlan<T>,
    ids_a: Seq<u32>,
    outcomes_a: Seq<NodeOutcome<T>>,
    ids_b: Seq<u32>,
    outcomes_b: Seq<NodeOutcome<T>>,
    steps: nat,
    zero: T,
    i: int,
)
    requires
        planned(a, ids_a, outcomes_a, steps, zero),
        planned(b, ids_b, outcomes_b, steps, zero),
        planned(whole, ids_a + ids_b, outcomes_a + outcomes_b, steps, zero),
    ensures
        whole.prepared@ == a.prepared@ + b.prepared@,
        whole.counted == a.counted + b.counted,
        whole.failed == a.failed + b.failed,
        whole.routed@.len() == a.routed@.len() + b.routed@.len(),
        0 <= i < a.routed@.len() ==> whole.routed@[i].feature_id == a.routed@[i].feature_id,
        0 <= i < b.routed@.len() ==> whole.routed@[a.routed@.len() + i].feature_id
            == b.routed@[i].feature_id,
{
    lemma_sorted_concat(ids_a, outcomes_a, ids_b, outcomes_b);
    if 0 <= i < a.routed@.len() {
        let (x, y) = (whole.routed@[i], a.routed@[i]);
    }
    if 0 <= i < b.routed@.len() {
        let (x, y) = (whole.routed@[a.routed@.len() + i], b.routed@[i]);
    }
}

/// What a plan holds of a single node: nothing for a node without channel parameters; zeros over
/// the whole simulation for one without inflow; the node with its own inputs for one that is
/// ready; a failure for one that failed. All but the first count as progress.
pub proof fn law_a_node_goes_where_its_outcome_sends_it<T>(
    plan: BatchPlan<T>,
    id: u32,
    outcome: NodeOutcome<T>,
    steps: nat,
    zero: T,
    t: int,
)
    requires
        planned(plan, seq![id], seq![outcome], steps, zero),
    ensures
        plan.counted == if outcome is NoParams {
            0int
        } else {
            1
        },
        plan.failed == if outcome is Failed {
            1int
        } else {
            0
        },
        plan.prepared@ == match outcome {
            NodeOutcome::Ready { work, params } => seq![PreparedNode { node_id: id, work, params }],
            _ => Seq::empty(),
        },
        plan.routed@.len() == if outcome is NoInflow {
            1int
        } else {
            0
        },
        outcome is NoInflow ==> {
            let results = plan.routed@[0];
            &&& results.feature_id == id
            &&& results.flow_data@.len() == steps
            &&& results.velocity_data@.len() == steps
            &&& results.depth_data@.len() == steps
            &&& 0 <= t < steps ==> results.flow_data@[t] == zero && results.velocity_data@[t]
                == zero && results.depth_data@[t] == zero
        },
{
    reveal_with_fuel(ready_nodes, 2);
    reveal_with_fuel(dry_nodes, 2);
    reveal_with_fuel(known_nodes, 2);
    reveal_with_fuel(failures, 2);
    assert(seq![id].drop_last() =~= Seq::<u32>::empty());
    assert(seq![outcome].drop_last() =~= Seq::<NodeOutcome<T>>::empty());
    let ready = ready_nodes(seq![id], seq![outcome]);
    match outcome {
        NodeOutcome::Ready { work, params } => {
            assert(ready =~= seq![PreparedNode { node_id: id, work, params }]);
        },
        _ => {
            assert(ready =~= Seq::<PreparedNode<T>>::empty());
        },
    }
    if outcome is NoInflow {
        let results = plan.routed@[0];
    }
}

/// The nodes of a batch go through the lanes sixteen at a time: the `i`-th is at place `i % 16` of
/// run `i / 16`, and no run has more than sixteen.
pub proof fn law_lanes_take_sixteen_at_a_time<E>(s: Seq<E>, i: int)
    requires
        0 <= i < s.len(),
    ensures
        0 <= i % 16 < chunk(s, i / 16).len() <= 16,
        chunk(s, i / 16)[i % 16] == s[i],
        chunk(s, i / 16).len() == 16 || (i / 16) * 16 + chunk(s, i / 16).len() == s.len(),
{
}

/// New results come last among those that wait, and all of them are written once they are as many
/// as a batch has; anything else writes what waits, if something does. What is written is all that
/// waits, under the next number; what is not written goes on waiting.
pub proof fn law_the_writer_writes_full_batches<R>(st: WriterState<R>, event: WriterEvent<R>)
    ensures
        ({
            let next = st.next(event);
            let waiting = match event {
                WriterEvent::WriteResults(r) => st.batch + seq![r],
                _ => st.batch,
            };
            let full = match event {
                WriterEvent::WriteResults(_) => st.batch.len() + 1 >= st.batch_size,
                _ => st.batch.len() > 0,
            };
            &&& next.batch_size == st.batch_size
            &&& full ==> {
                &&& st.output(event) == seq![
                    Written { results: waiting, batch_num: st.batch_num },
                ]
                &&& next.batch == Seq::<R>::empty()
                &&& next.batch_num == st.batch_num + 1
            }
            &&& !full ==> {
                &&& st.output(event) == Seq::<Written<R>>::empty()
                &&& next.batch == waiting
                &&& next.batch_num == st.batch_num
            }
            &&& st.writes(event) == full
        }),
{
    if let WriterEvent::WriteResults(r) = event {
        assert(st.batch.push(r) =~= st.batch + seq![r]);
    }
}

/// The writer goes on after results and after a quiet spell, and stops after a shutdown and when
/// nobody is left.
pub proof fn law_the_writer_stops_at_the_end<R>(event: WriterEvent<R>)
    ensures
        match event {
            WriterEvent::WriteResults(_) => !is_last(event),
            WriterEvent::Timeout => !is_last(event),
            WriterEvent::Shutdown => is_last(event),
            WriterEvent::Disconnected => is_last(event),
        },
{
}

/// A run goes on after a completion as long as anything runs or is ready. It stops at a shutdown and
/// when nobody is left to report, which change nothing.
pub proof fn law_a_run_stops_at_rest_or_on_request<A>(
    topology: NetworkTopology<A>,
    st: SchedulerState,
    message: Option<SchedulerMessage>,
    after: SchedulerState,
    go_on: bool,
)
    requires
        st.takes_in(topology.drainage(), message, after, go_on),
    ensures
        message is None ==> !go_on && after == st,
        message == Some(SchedulerMessage::Shutdown) ==> !go_on && after == st,
        message matches Some(SchedulerMessage::NodeCompleted(id)) ==> {
            &&& after == st.completed(topology.drainage(), id)
            &&& go_on <==> after.running != 0 || after.ready.len() > 0
        },
{
}

/// A worker reports each node of its batch complete, once and in order.
pub proof fn law_every_node_of_a_batch_is_reported(
    batch: BatchState,
    messages: Seq<SchedulerMessage>,
    i: int,
)
    requires
        batch.reported_by(messages),
    ensures
        messages.len() == batch.node_ids.len(),
        0 <= i < batch.node_ids.len() ==> messages[i] == SchedulerMessage::NodeCompleted(
            batch.node_ids[i],
        ),
{
    let m = messages[i];
}

/// A batch of the writer is as large as the network, and never larger than a hundred.
pub proof fn law_batches_are_at_most_a_hundred(total_nodes: int)
    ensures
        batch_size_for(total_nodes) <= total_nodes,
        batch_size_for(total_nodes) <= 100,
        batch_size_for(total_nodes) == total_nodes || batch_size_for(total_nodes) == 100,
{
}

/// A writer starts with nothing waiting, at number 0, with the batch size it is given.
pub proof fn law_writers_start_empty<R>(batch_size: int)
    ensures
        ({
            let st = WriterState::<R>::fresh(batch_size);
            &&& st.batch.len() == 0
            &&& st.batch_num == 0
            &&& st.batch_size == batch_size
        }),
{
}

/// A report names the node and the error, and what led to it where that is known.
pub proof fn law_reports_name_the_node(id: u32, error: Seq<char>, more: Seq<char>)
    ensures
        error_report(id, error, None) == "Error processing node "@ + decimal(id as nat) + ": "@
            + error,
        error_report(id, error, Some(more)) == error_report(id, error, None) + "\nContext: "@
            + more,
{
}

/// A worker takes on the node it waited for, whichever it is, as the first of a batch; a shutdown
/// or the end of its queue ends it.
pub proof fn law_a_worker_starts_with_what_it_waited_for(id: u32, batched: bool)
    ensures
        BatchState::started(None, batched) is None,
        BatchState::started(Some(WorkerMessage::Shutdown), batched) is None,
        BatchState::started(Some(WorkerMessage::ProcessNode(id)), batched) == Some(
            BatchState {
                node_ids: seq![id],
                batched,
                queue_open: true,
                shutdown_after_batch: false,
            },
        ),
{
}

} // verus!
