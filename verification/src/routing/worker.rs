//! What a worker does with the nodes it is handed.
//!
//! The lane kernel routes `LANES` reaches at once, so under that kernel a worker takes whatever
//! else is already queued, up to a full batch, before it starts. Nodes are handed out only once
//! all their upstream nodes are done, so everything in a batch is independent.

use crate::command::text_of;
use crate::config::ChannelParams;
use crate::fx::fx_get;
use crate::io::results::{repeated, zero_results, SimulationResults};
use crate::kernel::muskingum::rs_route::mc_kernel_simd::{
    callable, LaneArithmetic, LaneInput, LaneValues, ReachParams, LANES,
};
use crate::kernel::muskingum::{MuskingumCungeInput, MuskingumCungeResult};
use crate::routing::node::{
    answers, route_node_scalar, route_nodes_simd, routed_alone, routed_together, NodeWork,
    PreparedNode,
};
use crate::routing::scheduler::SchedulerMessage;
use crate::text::{decimal, push_decimal};
use rustc_hash::FxHashMap;
use vstd::prelude::*;

verus! {

/// What reaches a worker from the scheduler.
pub enum WorkerMessage {
    ProcessNode(u32),
    Shutdown,
}

/// The nodes a worker takes on together.
pub struct WorkerBatch {
    node_ids: Vec<u32>,
    batched: bool,
    queue_open: bool,
    shutdown_after_batch: bool,
}

/// A worker's batch as plain mathematics.
#[verifier::ext_equal]
pub struct BatchState {
    /// The nodes taken so far, in the order they came.
    pub node_ids: Seq<u32>,
    /// Whether the kernel routes several nodes at once.
    pub batched: bool,
    /// Whether the queue may still hold more.
    pub queue_open: bool,
    /// Whether the worker stops once this batch is routed.
    pub shutdown_after_batch: bool,
}

impl View for WorkerBatch {
    type V = BatchState;

    closed spec fn view(&self) -> BatchState {
        BatchState {
            node_ids: self.node_ids@,
            batched: self.batched,
            queue_open: self.queue_open,
            shutdown_after_batch: self.shutdown_after_batch,
        }
    }
}

impl BatchState {
    pub open spec fn first(id: u32, batched: bool) -> BatchState {
        BatchState {
            node_ids: seq![id],
            batched,
            queue_open: true,
            shutdown_after_batch: false,
        }
    }

    /// The batch that a worker starts with the message it waited for, none where that is not a
    /// node.
    pub open spec fn started(message: Option<WorkerMessage>, batched: bool) -> Option<BatchState> {
        match message {
            Some(WorkerMessage::ProcessNode(id)) => Some(BatchState::first(id, batched)),
            _ => None,
        }
    }

    /// Room for more, and more may be there.
    pub open spec fn wants_more(self) -> bool {
        self.batched && self.queue_open && self.node_ids.len() < LANES
    }

    /// `messages` report every node of the batch complete, in order.
    pub open spec fn reported_by(self, messages: Seq<SchedulerMessage>) -> bool {
        &&& messages.len() == self.node_ids.len()
        &&& forall|i: int|
            #![trigger messages[i]]
            0 <= i < messages.len() ==> messages[i] == SchedulerMessage::NodeCompleted(
                self.node_ids[i],
            )
    }

    /// The batch after looking at the queue once; `None` when nothing was there.
    pub open spec fn offered(self, message: Option<WorkerMessage>) -> BatchState {
        match message {
            Some(WorkerMessage::ProcessNode(id)) => BatchState {
                node_ids: self.node_ids.push(id),
                ..self
            },
            Some(WorkerMessage::Shutdown) => BatchState {
                queue_open: false,
                shutdown_after_batch: true,
                ..self
            },
            None => BatchState { queue_open: false, ..self },
        }
    }
}

impl WorkerBatch {
    /// Starts a batch with the message the worker waited for, `None` once the channel is
    /// closed. No batch means that the worker is done.
    pub fn start(message: Option<WorkerMessage>, batched: bool) -> (batch: Option<WorkerBatch>)
        ensures
            match batch {
                Some(b) => BatchState::started(message, batched) == Some(b@),
                None => BatchState::started(message, batched) is None,
            },
    {
        match message {
            Some(WorkerMessage::ProcessNode(id)) => {
                let mut node_ids: Vec<u32> = Vec::new();
                node_ids.push(id);
                let batch = WorkerBatch {
                    node_ids,
                    batched,
                    queue_open: true,
                    shutdown_after_batch: false,
                };
                assert(batch@.node_ids =~= seq![id]);
                Some(batch)
            },
            Some(WorkerMessage::Shutdown) => None,
            None => None,
        }
    }

    /// Whether to look at the queue again before routing.
    pub fn wants_more(&self) -> (more: bool)
        ensures
            more == self@.wants_more(),
    {
        self.batched && self.queue_open && self.node_ids.len() < LANES
    }

    /// Takes in what one look at the queue gave.
    pub fn offer(&mut self, message: Option<WorkerMessage>)
        requires
            old(self)@.wants_more(),
        ensures
            final(self)@ == old(self)@.offered(message),
    {
        match message {
            Some(WorkerMessage::ProcessNode(id)) => {
                self.node_ids.push(id);
            },
            Some(WorkerMessage::Shutdown) => {
                self.queue_open = false;
                self.shutdown_after_batch = true;
            },
            None => {
                self.queue_open = false;
            },
        }
    }

    /// The nodes of the batch.
    pub fn node_ids(&self) -> (ids: &Vec<u32>)
        ensures
            ids@ == self@.node_ids,
    {
        &self.node_ids
    }

    /// Whether the worker stops after this batch.
    pub fn is_last(&self) -> (last: bool)
        ensures
            last == self@.shutdown_after_batch,
    {
        self.shutdown_after_batch
    }

    /// What to tell the scheduler once the batch is routed: every node handed to the worker is
    /// complete, including any skipped for missing channel parameters.
    pub fn completions(&self) -> (messages: Vec<SchedulerMessage>)
        ensures
            self@.reported_by(messages@),
    {
        let mut messages: Vec<SchedulerMessage> = Vec::new();
        let mut i: usize = 0;
        while i < self.node_ids.len()
            invariant
                i <= self.node_ids@.len(),
                messages@.len() == i,
                forall|k: int|
                    #![trigger messages@[k]]
                    0 <= k < i ==> messages@[k] == SchedulerMessage::NodeCompleted(
                        self@.node_ids[k],
                    ),
            decreases self.node_ids@.len() - i,
        {
            messages.push(SchedulerMessage::NodeCompleted(self.node_ids[i]));
            i += 1;
        }
        messages
    }
}

/// The batch after a number of looks at the queue.
pub open spec fn after_offers(
    start: BatchState,
    messages: Seq<Option<WorkerMessage>>,
) -> BatchState
    decreases messages.len(),
{
    if messages.len() == 0 {
        start
    } else {
        after_offers(start, messages.drop_last()).offered(messages.last())
    }
}

/// A worker looks at the queue only while it wants more.
pub open spec fn wanted(start: BatchState, messages: Seq<Option<WorkerMessage>>) -> bool
    decreases messages.len(),
{
    messages.len() == 0 || {
        &&& wanted(start, messages.drop_last())
        &&& after_offers(start, messages.drop_last()).wants_more()
    }
}

/// The nodes among the messages, in order.
pub open spec fn nodes_in(messages: Seq<Option<WorkerMessage>>) -> Seq<u32>
    decreases messages.len(),
{
    if messages.len() == 0 {
        Seq::empty()
    } else {
        match messages.last() {
            Some(WorkerMessage::ProcessNode(id)) => nodes_in(messages.drop_last()).push(id),
            _ => nodes_in(messages.drop_last()),
        }
    }
}

/// A batch is every node taken off the queue, in order, and never more than fit the lanes; a
/// worker that routes one node at a time takes one.
pub proof fn law_batch_is_what_was_taken(
    id: u32,
    batched: bool,
    messages: Seq<Option<WorkerMessage>>,
)
    requires
        wanted(BatchState::first(id, batched), messages),
    ensures
        ({
            let batch = after_offers(BatchState::first(id, batched), messages);
            &&& batch.node_ids == seq![id] + nodes_in(messages)
            &&& 1 <= batch.node_ids.len() <= LANES
            &&& !batched ==> batch.node_ids == seq![id]
            &&& batch.batched == batched
            &&& batch.shutdown_after_batch ==> !batch.wants_more()
        }),
    decreases messages.len(),
{
    let batch = after_offers(BatchState::first(id, batched), messages);
    if messages.len() > 0 {
        law_batch_is_what_was_taken(id, batched, messages.drop_last());
    }
    assert(batch.node_ids =~= seq![id] + nodes_in(messages));
}

/// What resolving a node's inputs came to.
pub enum NodeOutcome<T> {
    /// No channel parameters are known for it: it is skipped.
    NoParams,
    /// It has neither upstream nor lateral inflow.
    NoInflow,
    /// It can be routed.
    Ready { work: NodeWork<T>, params: ChannelParams<T> },
    /// Its inputs could not be resolved.
    Failed,
}

/// What looking for a node's inputs found.
pub enum Inputs<T> {
    /// Neither upstream nor lateral inflow.
    NoInflow,
    Found(NodeWork<T>),
    /// They could not be resolved.
    Failed,
}

/// What to report of a node that could not be routed.
pub open spec fn error_report(
    node_id: u32,
    error: Seq<char>,
    context: Option<Seq<char>>,
) -> Seq<char> {
    let first = "Error processing node "@ + decimal(node_id as nat) + ": "@ + error;
    match context {
        Some(more) => first + "\nContext: "@ + more,
        None => first,
    }
}

/// What to report of a node that could not be routed: the error and, where there is more to
/// say, what led to it.
pub fn node_error_message(node_id: u32, error: &str, context: Option<&str>) -> (message: String)
    ensures
        message@ == error_report(node_id, error@, text_of(context)),
{
    let mut message: String = String::new();
    message.append("Error processing node ");
    push_decimal(&mut message, node_id as usize);
    message.append(": ");
    message.append(error);
    assert(message@ =~= "Error processing node "@ + decimal(node_id as nat) + ": "@ + error@);
    if let Some(more) = context {
        message.append("\nContext: ");
        message.append(more);
    }
    message
}

/// The nodes of a batch, sorted by what is left to do about them.
pub struct BatchPlan<T> {
    /// Results that are known without a kernel.
    pub routed: Vec<SimulationResults<T>>,
    /// Nodes to route.
    pub prepared: Vec<PreparedNode<T>>,
    /// Nodes with channel parameters, which count as progress.
    pub counted: usize,
    /// Nodes whose inputs could not be resolved. Each of them shuts the whole run down.
    pub failed: usize,
}

impl<T> BatchPlan<T> {
    /// Every node in the plan can be routed over so many timesteps.
    pub open spec fn well_formed(self, max_timesteps: usize) -> bool {
        forall|i: int|
            max_timesteps > 0 && 0 <= i < self.prepared@.len() ==> (
            #[trigger] self.prepared@[i]).work.upsampling > 0
    }

    pub fn new() -> (plan: Self)
        ensures
            forall|steps: usize| #[trigger] plan.well_formed(steps),
            plan.routed@ == Seq::<SimulationResults<T>>::empty(),
            plan.prepared@ == Seq::<PreparedNode<T>>::empty(),
            plan.counted == 0,
            plan.failed == 0,
    {
        BatchPlan { routed: Vec::new(), prepared: Vec::new(), counted: 0, failed: 0 }
    }
}

/// All three series at zero for every timestep.
pub open spec fn all_zero<T>(results: SimulationResults<T>, id: u32, steps: nat, zero: T) -> bool {
    &&& results.feature_id == id
    &&& results.flow_data@ == repeated(zero, steps)
    &&& results.velocity_data@ == repeated(zero, steps)
    &&& results.depth_data@ == repeated(zero, steps)
}

impl<T: Copy> BatchPlan<T> {
    /// Sorts in one node.
    fn sort_in(
        &mut self,
        node_id: u32,
        outcome: NodeOutcome<T>,
        max_timesteps: usize,
        zero: T,
    )
        requires
            old(self).well_formed(max_timesteps),
            old(self).counted < usize::MAX,
            old(self).failed < usize::MAX,
            outcome matches NodeOutcome::Ready { work, params } ==> (max_timesteps > 0
                ==> work.upsampling > 0),
        ensures
            final(self).well_formed(max_timesteps),
            final(self).failed == old(self).failed + if outcome is Failed {
                1int
            } else {
                0
            },
            final(self).counted == old(self).counted + if outcome is NoParams {
                0int
            } else {
                1
            },
            match outcome {
                NodeOutcome::NoInflow => {
                    &&& final(self).prepared@ == old(self).prepared@
                    &&& final(self).routed@.len() == old(self).routed@.len() + 1
                    &&& final(self).routed@.drop_last() == old(self).routed@
                    &&& all_zero(final(self).routed@.last(), node_id, max_timesteps as nat, zero)
                },
                NodeOutcome::Ready { work, params } => {
                    &&& final(self).routed@ == old(self).routed@
                    &&& final(self).prepared@ == old(self).prepared@.push(
                        PreparedNode { node_id, work, params },
                    )
                },
                _ => {
                    &&& final(self).routed@ == old(self).routed@
                    &&& final(self).prepared@ == old(self).prepared@
                },
            },
    {
        match outcome {
            NodeOutcome::NoParams => {},
            NodeOutcome::NoInflow => {
                let ghost before = self.routed@;
                self.counted += 1;
                self.routed.push(zero_results(node_id, max_timesteps, zero));
                assert(self.routed@.drop_last() =~= before);
            },
            NodeOutcome::Ready { work, params } => {
                self.counted += 1;
                self.prepared.push(PreparedNode { node_id, work, params });
            },
            NodeOutcome::Failed => {
                self.counted += 1;
                self.failed += 1;
            },
        }
    }
}

/// What resolving a node comes to: a node without channel parameters is skipped, any other one
/// is what `resolve` finds.
pub open spec fn resolved<T, R: Fn(u32) -> Inputs<T>>(
    channels: Map<u32, ChannelParams<T>>,
    resolve: R,
    id: u32,
    outcome: NodeOutcome<T>,
) -> bool {
    if !channels.contains_key(id) {
        outcome == NodeOutcome::<T>::NoParams
    } else {
        match outcome {
            NodeOutcome::NoParams => false,
            NodeOutcome::NoInflow => call_ensures(resolve, (id,), Inputs::NoInflow),
            NodeOutcome::Ready { work, params } => params == channels[id] && call_ensures(
                resolve,
                (id,),
                Inputs::Found(work),
            ),
            NodeOutcome::Failed => call_ensures(resolve, (id,), Inputs::Failed),
        }
    }
}

/// The nodes to route, in order.
pub open spec fn ready_nodes<T>(ids: Seq<u32>, outcomes: Seq<NodeOutcome<T>>) -> Seq<
    PreparedNode<T>,
>
    decreases ids.len(),
{
    if ids.len() == 0 {
        Seq::empty()
    } else {
        let rest = ready_nodes(ids.drop_last(), outcomes.drop_last());
        match outcomes.last() {
            NodeOutcome::Ready { work, params } => rest.push(
                PreparedNode { node_id: ids.last(), work, params },
            ),
            _ => rest,
        }
    }
}

/// The nodes without inflow, in order.
pub open spec fn dry_nodes<T>(ids: Seq<u32>, outcomes: Seq<NodeOutcome<T>>) -> Seq<u32>
    decreases ids.len(),
{
    if ids.len() == 0 {
        Seq::empty()
    } else {
        let rest = dry_nodes(ids.drop_last(), outcomes.drop_last());
        if outcomes.last() is NoInflow {
            rest.push(ids.last())
        } else {
            rest
        }
    }
}

/// How many nodes have channel parameters.
pub open spec fn known_nodes<T>(outcomes: Seq<NodeOutcome<T>>) -> nat
    decreases outcomes.len(),
{
    if outcomes.len() == 0 {
        0
    } else {
        known_nodes(outcomes.drop_last()) + if outcomes.last() is NoParams {
            0nat
        } else {
            1
        }
    }
}

/// How many nodes could not be resolved.
pub open spec fn failures<T>(outcomes: Seq<NodeOutcome<T>>) -> nat
    decreases outcomes.len(),
{
    if outcomes.len() == 0 {
        0
    } else {
        failures(outcomes.drop_last()) + if outcomes.last() is Failed {
            1nat
        } else {
            0
        }
    }
}

/// The plan holds each node of the batch in its place: all zeros for nodes without inflow, a
/// kernel run for those that are ready, nothing for the others.
pub open spec fn planned<T>(
    plan: BatchPlan<T>,
    ids: Seq<u32>,
    outcomes: Seq<NodeOutcome<T>>,
    steps: nat,
    zero: T,
) -> bool {
    let dry = dry_nodes(ids, outcomes);
    &&& outcomes.len() == ids.len()
    &&& plan.prepared@ == ready_nodes(ids, outcomes)
    &&& plan.counted == known_nodes(outcomes)
    &&& plan.failed == failures(outcomes)
    &&& plan.routed@.len() == dry.len()
    &&& forall|i: int|
        #![trigger plan.routed@[i]]
        0 <= i < dry.len() ==> all_zero(plan.routed@[i], dry[i], steps, zero)
}

/// `plan` is what resolving every node of a batch comes to.
pub open spec fn plan_made<T, R: Fn(u32) -> Inputs<T>>(
    channels: Map<u32, ChannelParams<T>>,
    resolve: R,
    ids: Seq<u32>,
    steps: nat,
    zero: T,
    plan: BatchPlan<T>,
) -> bool {
    exists|outcomes: Seq<NodeOutcome<T>>| #[trigger]
        planned(plan, ids, outcomes, steps, zero) && forall|i: int|
            #![trigger outcomes[i]]
            0 <= i < ids.len() ==> resolved(channels, resolve, ids[i], outcomes[i])
}

/// Resolves the inputs of every node of a batch; nodes with no forcing at all route to zeros
/// without entering a kernel.
///
/// `resolve` finds a node's inputs; it is only asked about nodes with channel parameters.
pub fn plan_batch<T: Copy, R: Fn(u32) -> Inputs<T>>(
    node_ids: &Vec<u32>,
    channel_params: &FxHashMap<u32, ChannelParams<T>>,
    max_timesteps: usize,
    zero: T,
    resolve: &R,
) -> (plan: BatchPlan<T>)
    requires
        forall|id: u32| #[trigger] call_requires(*resolve, (id,)),
        forall|id: u32, work: NodeWork<T>| #[trigger]
            call_ensures(*resolve, (id,), Inputs::Found(work)) ==> (max_timesteps > 0
                ==> work.upsampling > 0),
    ensures
        plan.well_formed(max_timesteps),
        plan_made(channel_params@, *resolve, node_ids@, max_timesteps as nat, zero, plan),
{
    let mut plan: BatchPlan<T> = BatchPlan::new();
    let ghost mut outcomes: Seq<NodeOutcome<T>> = Seq::empty();
    let mut i: usize = 0;
    while i < node_ids.len()
        invariant
            i <= node_ids@.len(),
            forall|id: u32| #[trigger] call_requires(*resolve, (id,)),
            forall|id: u32, work: NodeWork<T>| #[trigger]
                call_ensures(*resolve, (id,), Inputs::Found(work)) ==> (max_timesteps > 0
                ==> work.upsampling > 0),
            plan.well_formed(max_timesteps),
            plan.counted <= i,
            plan.failed <= i,
            planned(plan, node_ids@.take(i as int), outcomes, max_timesteps as nat, zero),
            forall|k: int|
                #![trigger outcomes[k]]
                0 <= k < i ==> resolved(channel_params@, *resolve, node_ids@[k], outcomes[k]),
        decreases node_ids@.len() - i,
    {
        let id = node_ids[i];
        let outcome: NodeOutcome<T> = match fx_get(channel_params, id) {
            None => NodeOutcome::NoParams,
            Some(params) => match resolve(id) {
                Inputs::NoInflow => NodeOutcome::NoInflow,
                Inputs::Found(work) => NodeOutcome::Ready { work, params: *params },
                Inputs::Failed => NodeOutcome::Failed,
            },
        };
        let ghost before = plan;
        let ghost ids = node_ids@.take(i + 1);
        let ghost more = outcomes.push(outcome);
        assert(resolved(channel_params@, *resolve, id, outcome));
        plan.sort_in(id, outcome, max_timesteps, zero);
        proof {
            assert(ids.drop_last() =~= node_ids@.take(i as int));
            assert(more.drop_last() =~= outcomes);
            assert forall|k: int|
                #![trigger plan.routed@[k]]
                0 <= k < dry_nodes(ids, more).len() implies all_zero(
                plan.routed@[k],
                dry_nodes(ids, more)[k],
                max_timesteps as nat,
                zero,
            ) by {
                if k < before.routed@.len() {
                    assert(before.routed@[k] == plan.routed@[k]);
                }
            }
            outcomes = more;
        }
        i += 1;
    }
    assert(node_ids@.take(i as int) =~= node_ids@);
    plan
}

/// Every node of a batch is accounted for once: it is skipped for want of channel parameters,
/// fails, routes to zeros, or goes through a kernel.
pub proof fn law_every_node_is_accounted_for<T>(ids: Seq<u32>, outcomes: Seq<NodeOutcome<T>>)
    requires
        outcomes.len() == ids.len(),
    ensures
        dry_nodes(ids, outcomes).len() + ready_nodes(ids, outcomes).len() + failures(outcomes)
            == known_nodes(outcomes),
        known_nodes(outcomes) <= ids.len(),
    decreases ids.len(),
{
    if ids.len() > 0 {
        law_every_node_is_accounted_for(ids.drop_last(), outcomes.drop_last());
    }
}

/// The `c`-th run of `LANES` entries, the last one shorter.
pub open spec fn chunk<E>(s: Seq<E>, c: int) -> Seq<E> {
    let end = (c + 1) * LANES;
    s.subrange(
        c * LANES,
        if end < s.len() {
            end
        } else {
            s.len() as int
        },
    )
}

/// `results` is what routing a plan comes to: first what is known without a kernel, then one
/// result per prepared node, in order; through the lane kernel `LANES` at a time where `batched` is
/// set, one by one through the scalar kernel otherwise.
pub open spec fn plan_routed<
    T,
    F: Fn(T) -> T,
    K: Fn(MuskingumCungeInput<T>) -> MuskingumCungeResult<T>,
    D: Fn(ChannelParams<T>) -> ReachParams<T>,
    B: Fn(T) -> (T, T),
    N: Fn(T) -> bool,
    A: Fn(LaneInput<T>, LaneValues<T>) -> (LaneValues<T>, bool),
    G: Fn(LaneInput<T>, LaneValues<T>) -> MuskingumCungeResult<T>,
>(
    floor_slope: F,
    kernel: K,
    derive: D,
    arithmetic: LaneArithmetic<B, N, A, G>,
    plan: BatchPlan<T>,
    batched: bool,
    steps: nat,
    dt: T,
    zero: T,
    results: Seq<SimulationResults<T>>,
) -> bool {
    let known = plan.routed@.len() as int;
    let routed = results.skip(known);
    &&& results.len() == known + plan.prepared@.len()
    &&& results.take(known) == plan.routed@
    &&& answers(plan.prepared@, routed, steps)
    &&& batched ==> forall|c: int|
        #![trigger chunk(routed, c)]
        0 <= c && c * LANES < routed.len() ==> routed_together(
            derive,
            arithmetic,
            dt,
            chunk(plan.prepared@, c),
            chunk(routed, c),
            steps,
            zero,
        )
    &&& !batched ==> forall|i: int|
        #![trigger routed[i]]
        0 <= i < routed.len() ==> routed_alone(
            floor_slope,
            kernel,
            dt,
            plan.prepared@[i].params,
            plan.prepared@[i].work,
            zero,
            routed[i],
        )
}

/// Routes every node of the plan and returns all results: first those known without a kernel,
/// then one per prepared node, in order.
///
/// With `batched` set, the nodes go through the lane kernel `LANES` at a time, otherwise one by
/// one through the scalar kernel.
pub fn route_batch<
    T: Copy,
    F: Fn(T) -> T,
    K: Fn(MuskingumCungeInput<T>) -> MuskingumCungeResult<T>,
    D: Fn(ChannelParams<T>) -> ReachParams<T>,
    B: Fn(T) -> (T, T),
    N: Fn(T) -> bool,
    A: Fn(LaneInput<T>, LaneValues<T>) -> (LaneValues<T>, bool),
    G: Fn(LaneInput<T>, LaneValues<T>) -> MuskingumCungeResult<T>,
>(
    plan: BatchPlan<T>,
    batched: bool,
    max_timesteps: usize,
    dt: T,
    zero: T,
    floor_slope: &F,
    kernel: &K,
    derive: &D,
    arithmetic: &LaneArithmetic<B, N, A, G>,
) -> (results: Vec<SimulationResults<T>>)
    requires
        plan.well_formed(max_timesteps),
        forall|s: T| #[trigger] call_requires(*floor_slope, (s,)),
        forall|input: MuskingumCungeInput<T>| #[trigger] call_requires(*kernel, (input,)),
        forall|p: ChannelParams<T>| #[trigger] call_requires(*derive, (p,)),
        callable(*arithmetic),
    ensures
        plan_routed(
            *floor_slope,
            *kernel,
            *derive,
            *arithmetic,
            plan,
            batched,
            max_timesteps as nat,
            dt,
            zero,
            results@,
        ),
{
    let BatchPlan { routed, prepared, .. } = plan;
    let ghost known = routed@;
    let ghost steps = max_timesteps as nat;
    let mut results: Vec<SimulationResults<T>> = routed;
    let mut done: usize = 0;
    if batched {
        let ghost mut chunks: int = 0;
        while done < prepared.len()
            invariant
                plan.well_formed(max_timesteps),
                plan.prepared == prepared,
                steps == max_timesteps,
                forall|p: ChannelParams<T>| #[trigger] call_requires(*derive, (p,)),
                callable(*arithmetic),
                done <= prepared@.len(),
                chunks >= 0,
                done == chunks * LANES || done == prepared@.len(),
                done <= chunks * LANES,
                results@.len() == known.len() + done,
                results@.take(known.len() as int) == known,
                answers(
                    prepared@.take(done as int),
                    results@.skip(known.len() as int),
                    steps,
                ),
                forall|c: int|
                    #![trigger chunk(results@.skip(known.len() as int), c)]
                    0 <= c < chunks && c * LANES < done ==> routed_together(
                        *derive,
                        *arithmetic,
                        dt,
                        chunk(prepared@, c),
                        chunk(results@.skip(known.len() as int), c),
                        steps,
                        zero,
                    ),
            decreases prepared@.len() - done,
        {
            let end: usize = if prepared.len() - done > LANES {
                done + LANES
            } else {
                prepared.len()
            };
            let nodes = vstd::slice::slice_subrange(prepared.as_slice(), done, end);
            assert forall|i: int| max_timesteps > 0 && 0 <= i < nodes@.len() implies (
            #[trigger] nodes@[i]).work.upsampling > 0 by {
                assert(nodes@[i] == plan.prepared@[done + i]);
            }
            let mut more = route_nodes_simd(nodes, max_timesteps, dt, zero, derive, arithmetic);
            let ghost before = results@.skip(known.len() as int);
            let ghost fresh = more@;
            let ghost first = done as int;
            results.append(&mut more);
            done = end;
            proof {
                let after = results@.skip(known.len() as int);
                assert(results@.take(known.len() as int) =~= known);
                assert(after =~= before + fresh);
                assert forall|i: int|
                    #![trigger after[i]]
                    0 <= i < done implies after[i].feature_id == prepared@.take(
                    done as int,
                )[i].node_id && after[i].covers(steps) by {
                    if i < first {
                        assert(after[i] == before[i]);
                        assert(prepared@.take(first)[i] == prepared@[i]);
                    } else {
                        assert(after[i] == fresh[i - first]);
                        assert(nodes@[i - first] == prepared@[i]);
                    }
                }
                assert forall|c: int|
                    #![trigger chunk(after, c)]
                    0 <= c < chunks + 1 && c * LANES < done implies routed_together(
                    *derive,
                    *arithmetic,
                    dt,
                    chunk(prepared@, c),
                    chunk(after, c),
                    steps,
                    zero,
                ) by {
                    if c < chunks {
                        assert((c + 1) * LANES <= chunks * LANES) by (nonlinear_arith)
                            requires
                                c < chunks,
                        ;
                        assert(chunk(after, c) =~= chunk(before, c));
                    } else {
                        assert(chunk(prepared@, c) =~= nodes@);
                        assert(chunk(after, c) =~= fresh);
                    }
                }
                chunks = chunks + 1;
            }
        }
        proof {
            let tail = results@.skip(known.len() as int);
            assert(prepared@.take(done as int) =~= prepared@);
            assert forall|c: int|
                #![trigger chunk(tail, c)]
                0 <= c && c * LANES < tail.len() implies routed_together(
                *derive,
                *arithmetic,
                dt,
                chunk(prepared@, c),
                chunk(tail, c),
                steps,
                zero,
            ) by {
                assert(c < chunks) by (nonlinear_arith)
                    requires
                        c * LANES < tail.len(),
                        tail.len() <= chunks * LANES,
                ;
            }
        }
    } else {
        while done < prepared.len()
            invariant
                plan.well_formed(max_timesteps),
                plan.prepared == prepared,
                steps == max_timesteps,
                forall|s: T| #[trigger] call_requires(*floor_slope, (s,)),
                forall|input: MuskingumCungeInput<T>| #[trigger] call_requires(*kernel, (input,)),
                done <= prepared@.len(),
                results@.len() == known.len() + done,
                results@.take(known.len() as int) == known,
                forall|i: int|
                    #![trigger results@.skip(known.len() as int)[i]]
                    0 <= i < done ==> {
                        let r = results@.skip(known.len() as int)[i];
                        &&& r.feature_id == prepared@[i].node_id
                        &&& r.covers(steps)
                        &&& routed_alone(
                            *floor_slope,
                            *kernel,
                            dt,
                            prepared@[i].params,
                            prepared@[i].work,
                            zero,
                            r,
                        )
                    },
            decreases prepared@.len() - done,
        {
            let node = &prepared[done];
            let one = route_node_scalar(
                floor_slope,
                kernel,
                node.node_id,
                &node.work,
                &node.params,
                max_timesteps,
                dt,
                zero,
            );
            let ghost before = results@;
            results.push(one);
            assert(results@.take(known.len() as int) =~= before.take(known.len() as int));
            assert(results@.skip(known.len() as int) =~= before.skip(known.len() as int).push(one));
            done += 1;
        }
    }
    results
}

} // verus!
