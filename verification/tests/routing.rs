use rs_route::config::ChannelParams;
use rs_route::io::results::SimulationResults;
use rs_route::kernel::muskingum::rs_route::mc_kernel_simd::{
    LaneArithmetic, LaneInput, LaneValues, ReachParams, LANES,
};
use rs_route::kernel::muskingum::{MuskingumCungeInput, MuskingumCungeResult};
use rs_route::network::{NetworkNode, NetworkTopology};
use rs_route::routing::node::{
    add_inflow, downstream_of, finish_node, node_forcing, prepare_node, route_node_scalar,
    route_nodes_simd, NodeWork, PrepareError, PreparedNode,
};
use rs_route::routing::scheduler::{Scheduler, SchedulerMessage};
use rs_route::routing::worker::{
    node_error_message, plan_batch, route_batch, BatchPlan, Inputs, WorkerBatch, WorkerMessage,
};
use rs_route::routing::writer::{writer_batch_size, Writer, WriterEvent};
use rustc_hash::FxHashMap;

/// A network from pairs of a node and the node it drains into.
fn network(edges: &[(u32, u32)]) -> NetworkTopology<u64> {
    let mut nodes = FxHashMap::default();
    let mut upstream_counts: FxHashMap<u32, usize> = FxHashMap::default();
    for &(id, downstream_id) in edges {
        nodes.insert(
            id,
            NetworkNode {
                id,
                downstream_id,
                area_sqkm: if id == 99 { None } else { Some(id as u64 * 10) },
                qlat_file: format!("cat-{}.csv", id),
            },
        );
        *upstream_counts.entry(downstream_id).or_insert(0) += 1;
    }
    NetworkTopology { nodes, upstream_counts }
}

/// Hands out, completes `pick` of what is running, and so on; returns the order of completion.
fn run(topology: &NetworkTopology<u64>, workers: usize, pick: fn(usize) -> usize) -> Vec<u32> {
    let mut scheduler = Scheduler::new(topology, workers);
    let mut running: Vec<u32> = Vec::new();
    let mut done: Vec<u32> = Vec::new();
    let mut turn = 0;
    loop {
        for dispatch in scheduler.dispatch_all() {
            assert_eq!(dispatch.worker, turn % workers);
            turn += 1;
            for (id, node) in &topology.nodes {
                if node.downstream_id == dispatch.node {
                    assert!(done.contains(id), "{} before {}", dispatch.node, id);
                }
            }
            running.push(dispatch.node);
        }
        let next = running.remove(pick(running.len()));
        done.push(next);
        if !scheduler.on_message(topology, Some(SchedulerMessage::NodeCompleted(next))) {
            return done;
        }
    }
}

const TREE: [(u32, u32); 9] =
    [(1, 5), (2, 5), (3, 6), (4, 6), (5, 7), (6, 7), (7, 8), (8, 1000), (20, 2000)];

/// Whatever order completions arrive in, every node is routed once, its upstreams before it.
#[test]
fn every_node_is_routed_after_its_upstreams() {
    let topology = network(&TREE);
    for (workers, pick) in
        [(1, (|_| 0) as fn(usize) -> usize), (3, |n| n - 1), (4, |n| n / 2), (16, |_| 0)]
    {
        let mut done = run(&topology, workers, pick);
        done.sort();
        assert_eq!(done, vec![1, 2, 3, 4, 5, 6, 7, 8, 20]);
    }
}

#[test]
fn completions_make_downstream_nodes_ready_first() {
    let topology = network(&[(1, 2), (2, 3), (3, 9)]);
    let mut scheduler = Scheduler::new(&topology, 2);
    let first = scheduler.dispatch_all();
    assert_eq!(first.len(), 1);
    assert_eq!((first[0].node, first[0].worker), (1, 0));
    assert!(scheduler.dispatch_all().is_empty());

    assert!(scheduler.on_message(&topology, Some(SchedulerMessage::NodeCompleted(1))));
    let second = scheduler.dispatch_all();
    assert_eq!((second[0].node, second[0].worker), (2, 1));
    assert!(scheduler.on_message(&topology, Some(SchedulerMessage::NodeCompleted(2))));
    let third = scheduler.dispatch_all();
    assert_eq!((third[0].node, third[0].worker), (3, 0));
    assert!(!scheduler.on_message(&topology, Some(SchedulerMessage::NodeCompleted(3))));
}

#[test]
fn a_run_ends_on_request() {
    let topology = network(&TREE);
    let mut scheduler = Scheduler::new(&topology, 2);
    assert_eq!(scheduler.dispatch_all().len(), 5);
    assert!(!scheduler.on_message(&topology, Some(SchedulerMessage::Shutdown)));
    assert!(!scheduler.on_message(&topology, None));
}

#[test]
fn an_empty_network_has_nothing_to_hand_out() {
    let topology = network(&[]);
    let mut scheduler = Scheduler::new(&topology, 0);
    assert!(scheduler.dispatch_all().is_empty());
}

#[test]
fn nodes_running_together_do_not_depend_on_each_other() {
    let topology = network(&TREE);
    let mut scheduler = Scheduler::new(&topology, 3);
    let reaches = |mut from: u32, to: u32| {
        while let Some(node) = topology.nodes.get(&from) {
            from = node.downstream_id;
            if from == to {
                return true;
            }
        }
        false
    };
    let mut running: Vec<u32> = Vec::new();
    loop {
        running.extend(scheduler.dispatch_all().iter().map(|d| d.node));
        for &a in &running {
            for &b in &running {
                assert!(!reaches(a, b), "{} drains into {}", a, b);
            }
        }
        let next = running.remove(0);
        if !scheduler.on_message(&topology, Some(SchedulerMessage::NodeCompleted(next))) {
            break;
        }
    }
}

#[test]
fn a_node_knows_its_forcing() {
    let topology = network(&[(1, 2), (99, 2)]);
    let forcing = node_forcing(1, &topology).ok().unwrap();
    assert_eq!(forcing.qlat_file, "cat-1.csv");
    assert_eq!(forcing.area_sqkm, 10);
    assert!(matches!(
        node_forcing(7, &topology),
        Err(PrepareError::NodeNotFound { node_id: 7 })
    ));
    assert!(matches!(node_forcing(99, &topology), Err(PrepareError::NoArea { node_id: 99 })));
    assert_eq!(topology.upstream_count(2), 2);
    assert_eq!(topology.upstream_count(1), 0);
}

fn prepare(
    inflow: Vec<u64>,
    external: Vec<u64>,
    steps: usize,
) -> Result<Option<NodeWork<u64>>, PrepareError> {
    prepare_node(4, &"cat-4.csv".to_string(), inflow, external, steps, 0)
}

#[test]
fn inputs_are_settled() {
    assert!(matches!(prepare(vec![], vec![], 24), Ok(None)));

    let headwater = prepare(vec![], vec![1, 2, 3], 24).ok().unwrap().unwrap();
    assert_eq!(headwater.inflow, vec![0; 24]);
    assert_eq!(headwater.external, vec![1, 2, 3]);
    assert_eq!(headwater.upsampling, 12);

    let unforced = prepare(vec![7; 24], vec![], 24).ok().unwrap().unwrap();
    assert_eq!(unforced.inflow, vec![7; 24]);
    assert_eq!(unforced.external, vec![0; 24]);
    assert_eq!(unforced.upsampling, 1);

    assert_eq!(prepare(vec![1], vec![1, 2, 3, 4], 2).ok().unwrap().unwrap().upsampling, 1);
    match prepare(vec![1], vec![5], 24) {
        Err(PrepareError::SingleFlow { node_id, qlat_file }) => {
            assert_eq!(node_id, 4);
            assert_eq!(qlat_file, "cat-4.csv");
        }
        _ => panic!("a single flow was accepted"),
    }
}

/// Each forcing value lasts one hour of internal timesteps.
#[test]
fn forcing_keeps_time() {
    for dt in (1..=3600).filter(|dt| 3600 % dt == 0) {
        let steps = 3 * (3600 / dt);
        let work = prepare(vec![], vec![1, 2, 3, 4], steps).ok().unwrap().unwrap();
        assert_eq!(work.upsampling, 3600 / dt);
        for t in 0..steps {
            assert_eq!(t / work.upsampling, t * dt / 3600);
        }
    }
}

fn channel(s0: u64) -> ChannelParams<u64> {
    ChannelParams { dx: 1, n: 2, ncc: 3, s0, bw: 4, tw: 5, twcc: 6, cs: 7 }
}

fn floor(s0: u64) -> u64 {
    s0.max(10)
}

/// Integer stand-in for a kernel: depends on every flow, on the slope and on the channel.
fn kernel(i: MuskingumCungeInput<u64>) -> MuskingumCungeResult<u64> {
    let wet = i.qup + i.quc + i.qdp + i.ql > 0;
    let q = i.qup + 2 * i.quc + i.qdp / 2 + 3 * i.ql + if wet { i.s0 + i.dx } else { 0 };
    MuskingumCungeResult { qdc: q, velc: i.depthp, depthc: i.depthp + i.ql + i.velp }
}

fn work(inflow: Vec<u64>, external: Vec<u64>, upsampling: usize) -> NodeWork<u64> {
    NodeWork { inflow, external, upsampling }
}

#[test]
fn a_node_is_routed_step_by_step() {
    let node = work(vec![10, 20], vec![1, 2], 2);
    let out = route_node_scalar(&floor, &kernel, 6, &node, &channel(0), 4, 300, 0);
    assert_eq!(out.feature_id, 6);
    assert_eq!(out.flow_data, vec![34, 81, 77, 55]);
    assert_eq!(out.velocity_data, vec![0, 1, 2, 4]);
    assert_eq!(out.depth_data, vec![1, 2, 4, 6]);
}

/// What is routed up to a timestep does not depend on later inflow.
#[test]
fn routing_is_causal() {
    let a = work(vec![10, 20, 30, 40], vec![1, 2], 2);
    let b = work(vec![10, 20, 99, 0], vec![1, 9], 2);
    let ra = route_node_scalar(&floor, &kernel, 1, &a, &channel(3), 4, 300, 0);
    let rb = route_node_scalar(&floor, &kernel, 1, &b, &channel(3), 4, 300, 0);
    assert_eq!(ra.flow_data[..2], rb.flow_data[..2]);
    assert_ne!(ra.flow_data[2], rb.flow_data[2]);
}

#[test]
fn no_inflow_routes_to_zeros() {
    let dry = work(vec![0; 5], vec![0; 5], 1);
    let out = route_node_scalar(&floor, &kernel, 1, &dry, &channel(3), 5, 300, 0);
    assert_eq!(out.flow_data, vec![0; 5]);
    assert_eq!(out.velocity_data, vec![0; 5]);
    assert_eq!(out.depth_data, vec![0; 5]);
}

fn derive(p: ChannelParams<u64>) -> ReachParams<u64> {
    ReachParams {
        dx: p.dx,
        n: p.n,
        n_cc: p.ncc,
        so: floor(p.s0),
        bw: p.bw,
        tw_cc: p.twcc,
        z: p.cs,
        bfd: p.tw,
        sqrt_1_z2: 0,
        sqrt_so: 0,
        sqrt_so_n: 0,
        sqrt_so_ncc: 0,
        bw_2bfd_z: 0,
        two_sqrt_1_z2: 0,
    }
}

/// The scalar kernel on one lane, settled after one iteration.
fn lane_kernel(input: LaneInput<u64>, _: LaneValues<u64>) -> MuskingumCungeResult<u64> {
    let (p, f) = (input.reach, input.flows);
    kernel(MuskingumCungeInput {
        dt: input.dt,
        qup: f.qup,
        quc: f.quc,
        qdp: f.qdp,
        ql: f.ql,
        dx: p.dx,
        bw: p.bw,
        tw: p.bfd,
        tw_cc: p.tw_cc,
        n: p.n,
        n_cc: p.n_cc,
        cs: p.z,
        s0: p.so,
        velp: 0,
        depthp: f.depthp,
    })
}

type Lanes = LaneArithmetic<
    fn(u64) -> (u64, u64),
    fn(u64) -> bool,
    fn(LaneInput<u64>, LaneValues<u64>) -> (LaneValues<u64>, bool),
    fn(LaneInput<u64>, LaneValues<u64>) -> MuskingumCungeResult<u64>,
>;

fn lanes() -> Lanes {
    LaneArithmetic {
        bracket: |d| (d, d),
        // Every lane is routed, so that depths are carried on as the kernel has them.
        absent: |_| false,
        advance: |_, values| (values, true),
        finish: lane_kernel,
    }
}

fn batch(len: usize) -> Vec<PreparedNode<u64>> {
    (0..len)
        .map(|i| PreparedNode {
            node_id: 50 + i as u32,
            work: work(vec![i as u64, 3 * i as u64], vec![i as u64 + 1, 2], 1 + i % 3),
            params: channel(i as u64 * 4),
        })
        .collect()
}

fn same(a: &SimulationResults<u64>, b: &SimulationResults<u64>) -> bool {
    a.feature_id == b.feature_id
        && a.flow_data == b.flow_data
        && a.velocity_data == b.velocity_data
        && a.depth_data == b.depth_data
}

/// Routed in a batch or alone, a node gets the same hydrograph.
#[test]
fn batch_routing_matches_scalar_routing() {
    for len in [1, 3, LANES] {
        let nodes = batch(len);
        let together = route_nodes_simd(&nodes, 6, 300, 0, &derive, &lanes());
        assert_eq!(together.len(), len);
        for (node, got) in nodes.iter().zip(&together) {
            let alone = route_node_scalar(
                &floor, &kernel, node.node_id, &node.work, &node.params, 6, 300, 0,
            );
            assert!(same(&alone, got), "node {}", node.node_id);
        }
    }
}

/// Neither the other nodes of a batch nor the place in it matter.
#[test]
fn a_batch_of_one_gives_the_same() {
    let nodes = batch(LANES);
    let together = route_nodes_simd(&nodes, 6, 300, 0, &derive, &lanes());
    for k in 0..LANES {
        let own = route_nodes_simd(&nodes[k..k + 1], 6, 300, 0, &derive, &lanes());
        assert_eq!(own.len(), 1);
        assert!(same(&own[0], &together[k]), "node {}", k);
    }
}

#[test]
fn a_batch_member_without_inflow_routes_to_zeros() {
    let mut nodes = batch(3);
    nodes[1].work = work(vec![0; 4], vec![0; 2], 2);
    let dry = LaneArithmetic { absent: (|q| q == 0) as fn(u64) -> bool, ..lanes() };
    let out = route_nodes_simd(&nodes, 6, 300, 0, &derive, &dry);
    assert_eq!(out[1].flow_data, vec![0; 6]);
    assert_eq!(out[1].velocity_data, vec![0; 6]);
    assert_eq!(out[1].depth_data, vec![0; 6]);
    assert!(out[0].flow_data.iter().any(|&q| q > 0));
}

#[test]
fn batches_are_cut_to_the_lanes() {
    for batched in [false, true] {
        let plan = BatchPlan {
            routed: vec![SimulationResults {
                feature_id: 1,
                flow_data: vec![0; 6],
                velocity_data: vec![0; 6],
                depth_data: vec![0; 6],
            }],
            prepared: batch(2 * LANES + 3),
            counted: 0,
            failed: 0,
        };
        let out =
            route_batch(plan, batched, 6, 300, 0, &floor, &kernel, &derive, &lanes());
        assert_eq!(out.len(), 1 + 2 * LANES + 3);
        assert_eq!(out[0].feature_id, 1);
        for (node, got) in batch(2 * LANES + 3).iter().zip(&out[1..]) {
            let alone = route_node_scalar(
                &floor, &kernel, node.node_id, &node.work, &node.params, 6, 300, 0,
            );
            assert!(same(&alone, got), "node {}", node.node_id);
        }
    }
}

#[test]
fn flows_go_to_the_node_below() {
    let topology = network(&TREE);
    assert_eq!(downstream_of(&topology, 1), Some(5));
    assert_eq!(downstream_of(&topology, 8), None);
    assert_eq!(downstream_of(&topology, 77), None);
}

fn plus(a: u64, b: u64) -> u64 {
    a + b
}

/// A buffer holds the sum of what was added to it.
#[test]
fn inflow_is_the_sum_of_upstream_flows() {
    let mut buffer: Vec<u64> = Vec::new();
    for flows in [vec![1, 2, 3], vec![10, 20, 30], vec![100, 200, 300]] {
        add_inflow(&mut buffer, &flows, 0, &plus);
    }
    assert_eq!(buffer, vec![111, 222, 333]);
    add_inflow(&mut buffer, &vec![1], 0, &plus);
    assert_eq!(buffer, vec![112, 222, 333]);
    add_inflow(&mut buffer, &vec![1, 1, 1, 1], 0, &plus);
    assert_eq!(buffer, vec![113, 223, 334]);
}

/// Two hydrographs may come in either order.
#[test]
fn two_inflows_may_come_in_either_order() {
    let (a, b) = (vec![1, 2, 3], vec![40, 50, 60]);
    let mut ab: Vec<u64> = Vec::new();
    add_inflow(&mut ab, &a, 0, &plus);
    add_inflow(&mut ab, &b, 0, &plus);
    let mut ba: Vec<u64> = Vec::new();
    add_inflow(&mut ba, &b, 0, &plus);
    add_inflow(&mut ba, &a, 0, &plus);
    assert_eq!(ab, vec![41, 52, 63]);
    assert_eq!(ab, ba);
}

fn results(len: u64) -> SimulationResults<u64> {
    SimulationResults {
        feature_id: 3,
        flow_data: (0..len).collect(),
        velocity_data: (10..10 + len).collect(),
        depth_data: (20..20 + len).collect(),
    }
}

#[test]
fn finished_nodes_are_handed_on() {
    let (buffer, out) = finish_node(results(4), Some(vec![5, 5, 5, 5]), 2, 0, &plus);
    assert_eq!(buffer, Some(vec![5, 6, 7, 8]));
    assert_eq!(out.feature_id, 3);
    assert_eq!(out.flow_data, vec![1, 3]);
    assert_eq!(out.velocity_data, vec![11, 13]);
    assert_eq!(out.depth_data, vec![21, 23]);

    let (buffer, out) = finish_node(results(4), None, 1, 0, &plus);
    assert!(buffer.is_none());
    assert_eq!(out.flow_data, vec![0, 1, 2, 3]);

    let (buffer, _) = finish_node(results(4), Some(vec![]), 1, 0, &plus);
    assert_eq!(buffer, Some(vec![0, 1, 2, 3]));

    let uneven = SimulationResults { velocity_data: vec![7, 8, 9], ..results(3) };
    let uneven = SimulationResults { depth_data: vec![5, 6], ..uneven };
    let (_, out) = finish_node(uneven, None, 2, 0, &plus);
    assert_eq!(out.flow_data, vec![1]);
    assert_eq!(out.velocity_data, vec![8]);
    assert_eq!(out.depth_data, vec![6]);
}

#[test]
fn a_batch_is_what_was_taken() {
    assert!(WorkerBatch::start(Some(WorkerMessage::Shutdown), true).is_none());
    assert!(WorkerBatch::start(None, true).is_none());

    let one = WorkerBatch::start(Some(WorkerMessage::ProcessNode(4)), false).unwrap();
    assert!(!one.wants_more());
    assert_eq!(one.node_ids(), &vec![4]);

    let mut many = WorkerBatch::start(Some(WorkerMessage::ProcessNode(0)), true).unwrap();
    let mut next = 1;
    while many.wants_more() {
        many.offer(Some(WorkerMessage::ProcessNode(next)));
        next += 1;
    }
    assert_eq!(many.node_ids(), &(0..LANES as u32).collect::<Vec<u32>>());
    assert!(!many.is_last());

    let mut dry = WorkerBatch::start(Some(WorkerMessage::ProcessNode(7)), true).unwrap();
    dry.offer(Some(WorkerMessage::ProcessNode(8)));
    dry.offer(None);
    assert!(!dry.wants_more());
    assert!(!dry.is_last());

    let mut last = WorkerBatch::start(Some(WorkerMessage::ProcessNode(7)), true).unwrap();
    last.offer(Some(WorkerMessage::Shutdown));
    assert!(!last.wants_more());
    assert!(last.is_last());
    let told: Vec<u32> = last
        .completions()
        .into_iter()
        .map(|m| match m {
            SchedulerMessage::NodeCompleted(id) => id,
            SchedulerMessage::Shutdown => panic!("a shutdown among the completions"),
        })
        .collect();
    assert_eq!(told, vec![7]);
}

#[test]
fn every_node_of_a_batch_is_accounted_for() {
    let mut channels: FxHashMap<u32, ChannelParams<u64>> = FxHashMap::default();
    for id in 1..5 {
        channels.insert(id, channel(id as u64));
    }
    let plan = plan_batch(&vec![4, 9, 1, 2, 3], &channels, 3, 0, &|id| match id {
        1 => Inputs::NoInflow,
        2 => Inputs::Failed,
        9 => panic!("asked about a node without channel parameters"),
        _ => Inputs::Found(work(vec![id as u64], vec![1, 2], 1)),
    });
    assert_eq!(plan.counted, 4);
    assert_eq!(plan.failed, 1);
    assert_eq!(plan.routed.len(), 1);
    assert_eq!(plan.routed[0].feature_id, 1);
    assert_eq!(plan.routed[0].flow_data, vec![0, 0, 0]);
    let ready: Vec<(u32, u64)> =
        plan.prepared.iter().map(|p| (p.node_id, p.params.s0)).collect();
    assert_eq!(ready, vec![(4, 4), (3, 3)]);
}

#[test]
fn node_errors_are_reported() {
    assert_eq!(node_error_message(7, "no area", None), "Error processing node 7: no area");
    assert_eq!(
        node_error_message(12, "cannot read", Some("file is gone")),
        "Error processing node 12: cannot read\nContext: file is gone"
    );
}

#[test]
fn batch_sizes_are_capped() {
    assert_eq!(writer_batch_size(0), 0);
    assert_eq!(writer_batch_size(99), 99);
    assert_eq!(writer_batch_size(100), 100);
    assert_eq!(writer_batch_size(5000), 100);
}

/// Nothing is lost, repeated or reordered, and batches are numbered without gaps.
#[test]
fn everything_is_written_once() {
    let mut writer: Writer<u32> = Writer::new(3);
    let mut written: Vec<u32> = Vec::new();
    let mut numbers: Vec<usize> = Vec::new();
    for n in 0..20u32 {
        let mut events = vec![WriterEvent::WriteResults(n)];
        if n % 7 == 0 {
            events.push(WriterEvent::Timeout);
        }
        for event in events {
            let step = writer.on_event(event);
            assert!(step.go_on);
            if let Some(batch) = step.write {
                assert!(!batch.results.is_empty() && batch.results.len() <= 3);
                numbers.push(batch.batch_num);
                written.extend(batch.results);
            }
        }
    }
    let step = writer.on_event(WriterEvent::Shutdown);
    assert!(!step.go_on);
    if let Some(batch) = step.write {
        numbers.push(batch.batch_num);
        written.extend(batch.results);
    }
    assert_eq!(written, (0..20).collect::<Vec<u32>>());
    assert_eq!(numbers, (0..numbers.len()).collect::<Vec<usize>>());
}

/// A whole run: `pick` chooses which of the running batches completes next. Returns what is
/// written.
fn whole_run(
    topology: &NetworkTopology<u64>,
    channels: &FxHashMap<u32, ChannelParams<u64>>,
    workers: usize,
    batched: bool,
    pick: fn(usize) -> usize,
) -> Vec<SimulationResults<u64>> {
    let mut scheduler = Scheduler::new(topology, workers);
    let mut writer: Writer<SimulationResults<u64>> = Writer::new(2);
    let mut queue: Vec<u32> = Vec::new();
    let mut buffers: FxHashMap<u32, Vec<u64>> = FxHashMap::default();
    let mut written = Vec::new();
    'run: loop {
        queue.extend(scheduler.dispatch_all().iter().map(|d| d.node));
        let first = queue.remove(pick(queue.len()));
        let mut taken =
            WorkerBatch::start(Some(WorkerMessage::ProcessNode(first)), batched).unwrap();
        while taken.wants_more() {
            let next = if queue.is_empty() { None } else { Some(queue.remove(pick(queue.len()))) };
            taken.offer(next.map(WorkerMessage::ProcessNode));
        }
        let inflow = buffers.clone();
        let plan = plan_batch(taken.node_ids(), channels, 6, 0, &|id| {
            let inflow = inflow.get(&id).cloned().unwrap_or_default();
            let external = if id % 2 == 0 { vec![id as u64, 1, 2] } else { vec![] };
            match prepare(inflow, external, 6) {
                Ok(None) => Inputs::NoInflow,
                Ok(Some(work)) => Inputs::Found(work),
                Err(_) => Inputs::Failed,
            }
        });
        assert_eq!(plan.failed, 0);
        for out in route_batch(plan, batched, 6, 300, 0, &floor, &kernel, &derive, &lanes()) {
            let below = downstream_of(topology, out.feature_id);
            let before = below.map(|id| buffers.remove(&id).unwrap_or_default());
            let (after, out) = finish_node(out, before, 1, 0, &plus);
            if let (Some(id), Some(after)) = (below, after) {
                buffers.insert(id, after);
            }
            if let Some(batch) = writer.on_event(WriterEvent::WriteResults(out)).write {
                written.extend(batch.results);
            }
        }
        for message in taken.completions() {
            if !scheduler.on_message(topology, Some(message)) {
                break 'run;
            }
        }
    }
    if let Some(batch) = writer.on_event(WriterEvent::Disconnected).write {
        written.extend(batch.results);
    }
    written.sort_by_key(|r| r.feature_id);
    written
}

/// Each node with channel parameters is written once, nothing else is, and neither the number of
/// workers nor the order of completions shows in the values.
#[test]
fn whole_runs_agree() {
    let topology = network(&TREE);
    let mut channels: FxHashMap<u32, ChannelParams<u64>> = FxHashMap::default();
    for id in [1, 2, 3, 5, 6, 7, 8, 20, 500] {
        channels.insert(id, channel(id as u64));
    }
    let first = whole_run(&topology, &channels, 1, false, |_| 0);
    let ids: Vec<u32> = first.iter().map(|r| r.feature_id).collect();
    assert_eq!(ids, vec![1, 2, 3, 5, 6, 7, 8, 20]);
    assert!(first[6].flow_data.iter().any(|&q| q > 0));
    for (workers, batched, pick) in [
        (3, false, (|n| n - 1) as fn(usize) -> usize),
        (5, false, |n| n / 2),
        (2, true, |_| 0),
        (4, true, |n| n - 1),
    ] {
        let other = whole_run(&topology, &channels, workers, batched, pick);
        assert_eq!(other.len(), first.len());
        for (a, b) in first.iter().zip(&other) {
            assert!(same(a, b), "node {} with {} workers", a.feature_id, workers);
        }
    }
}

/// Nothing is routed over no timesteps, whatever the forcing.
#[test]
fn no_timesteps_give_empty_series() {
    let node = work(vec![1], vec![1, 2], 0);
    let out = route_node_scalar(&floor, &kernel, 1, &node, &channel(3), 0, 300, 0);
    assert!(out.flow_data.is_empty());
    let nodes = vec![PreparedNode { node_id: 1, work: node, params: channel(3) }];
    let out = route_nodes_simd(&nodes, 0, 300, 0, &derive, &lanes());
    assert_eq!(out.len(), 1);
    assert!(out[0].flow_data.is_empty());
}

#[test]
fn an_idle_writer_writes_nothing() {
    let mut writer: Writer<u32> = Writer::new(3);
    let quiet = writer.on_event(WriterEvent::Timeout);
    assert!(quiet.write.is_none() && quiet.go_on);
    let end = writer.on_event(WriterEvent::Disconnected);
    assert!(end.write.is_none() && !end.go_on);
}
