use rs_route::config::ChannelParams;
use rs_route::kernel::muskingum::rs_route::mc_kernel_simd::{
    cube_root_seed, select, step, LaneArithmetic, LaneFlows, LaneInput, LaneParams, LaneResult,
    LaneValues, ReachParams, LANES, MAX_ITERATIONS,
};
use rs_route::kernel::muskingum::{MuskingumCungeKernel, MuskingumCungeResult};

/// Depth below which a reach counts as settled.
const MINDEPTH: f32 = 0.01;

/// The depths that the solver starts from, around the previous depth.
struct Bracket {
    high: f32,
    high_offset: f32,
    low: f32,
}

const WIDE: Bracket = Bracket { high: 1.33, high_offset: 0.01, low: 0.67 };

fn pow23(x: f32) -> f32 {
    if x > 0.0 {
        let mut y = f32::from_bits(cube_root_seed(x.to_bits()));
        y = (2.0 * y + x / (y * y)) * (1.0 / 3.0);
        y = (2.0 * y + x / (y * y)) * (1.0 / 3.0);
        y * y
    } else {
        0.0
    }
}

fn derive(p: ChannelParams<f32>) -> ReachParams<f32> {
    let so = if p.s0 == 0.0 { 0.00001 } else { p.s0 };
    let z = if p.cs == 0.0 { 1.0 } else { 1.0 / p.cs };
    let sqrt_1_z2 = (1.0 + z * z).sqrt();
    let sqrt_so = so.sqrt();
    let bfd = if p.bw > p.tw {
        p.bw / 0.00001
    } else if p.bw == p.tw {
        p.bw / (2.0 * z)
    } else {
        (p.tw - p.bw) / (2.0 * z)
    };
    ReachParams {
        dx: p.dx,
        n: p.n,
        n_cc: p.ncc,
        so,
        bw: p.bw,
        tw_cc: p.twcc,
        z,
        bfd,
        sqrt_1_z2,
        sqrt_so,
        sqrt_so_n: sqrt_so / p.n,
        sqrt_so_ncc: sqrt_so / p.ncc,
        bw_2bfd_z: p.bw + 2.0 * bfd * z,
        two_sqrt_1_z2: 2.0 * sqrt_1_z2,
    }
}

/// Hydraulic geometry for a given depth.
struct Geometry {
    area: f32,
    area_c: f32,
    wp: f32,
    wp_c: f32,
    r: f32,
}

fn hydraulic_geometry(h: f32, p: &ReachParams<f32>) -> Geometry {
    if h > p.bfd && p.tw_cc > 0.0 {
        let h_gt_bf = h - p.bfd;
        let area = (p.bw + p.bfd * p.z) * p.bfd;
        let area_c = p.tw_cc * h_gt_bf;
        let wp = p.bw + 2.0 * p.bfd * p.sqrt_1_z2;
        let wp_c = p.tw_cc + 2.0 * h_gt_bf;
        Geometry { area, area_c, wp, wp_c, r: (area + area_c) / (wp + wp_c) }
    } else {
        let area = (p.bw + h * p.z) * h;
        let wp = p.bw + 2.0 * h * p.sqrt_1_z2;
        Geometry { area, area_c: 0.0, wp, wp_c: 0.0, r: if wp > 0.0 { area / wp } else { 0.0 } }
    }
}

/// Kinematic celerity at a given depth.
fn kinematic_celerity(h: f32, g: &Geometry, r_2_3: f32, p: &ReachParams<f32>) -> f32 {
    let h_gt_bf_2_3 = pow23((h - p.bfd).max(0.0));
    let r_5_3 = g.r * r_2_3;
    if h > p.bfd && p.tw_cc > 0.0 && p.n_cc > 0.0 {
        ((p.sqrt_so_n
            * ((5.0 / 3.0) * r_2_3 - (2.0 / 3.0) * r_5_3 * (p.two_sqrt_1_z2 / p.bw_2bfd_z))
            * g.area
            + p.sqrt_so_ncc * (5.0 / 3.0) * h_gt_bf_2_3 * g.area_c)
            / (g.area + g.area_c))
            .max(0.0)
    } else if h > 0.0 {
        (p.sqrt_so_n
            * ((5.0 / 3.0) * r_2_3
                - (2.0 / 3.0) * r_5_3 * (p.two_sqrt_1_z2 / (p.bw + 2.0 * h * p.z))))
            .max(0.0)
    } else {
        0.0
    }
}

/// The weight of one interval, its lower bound given.
fn weight(p: &ReachParams<f32>, h: f32, ck: f32, flow: f32, least: f32) -> f32 {
    let twl = p.bw + 2.0 * p.z * h;
    if h > p.bfd && p.tw_cc > 0.0 && p.n_cc > 0.0 && ck > 0.0 {
        (0.5 * (1.0 - flow / (2.0 * p.tw_cc * p.so * ck * p.dx))).clamp(least, 0.5)
    } else if ck > 0.0 {
        (0.5 * (1.0 - flow / (2.0 * twl * p.so * ck * p.dx))).clamp(least, 0.5)
    } else {
        0.5
    }
}

/// What the flows exceed the channel's capacity at a depth by.
fn excess(flow_sum: f32, g: &Geometry, r_2_3: f32, p: &ReachParams<f32>) -> f32 {
    if g.wp + g.wp_c > 0.0 {
        let manning_avg = ((g.wp * p.n) + (g.wp_c * p.n_cc)) / (g.wp + g.wp_c);
        flow_sum - ((1.0 / manning_avg) * (g.area + g.area_c) * r_2_3 * p.sqrt_so)
    } else {
        0.0
    }
}

/// One secant iteration.
fn advance(input: LaneInput<f32>, s: LaneValues<f32>) -> (LaneValues<f32>, bool) {
    let (p, q, dt) = (&input.reach, &input.flows, input.dt);
    let half = dt * 0.5;

    let g_0 = hydraulic_geometry(s.h_0, p);
    let r_0_2_3 = pow23(g_0.r);
    let ck_0 = kinematic_celerity(s.h_0, &g_0, r_0_2_3, p);
    let km_0 = if ck_0 > 0.0 { dt.max(p.dx / ck_0) } else { dt };
    let x_0 = weight(p, s.h_0, ck_0, s.qj_0, 0.0);
    let d_0 = km_0 * (1.0 - x_0) + half;
    let c1 = (km_0 * x_0 + half) / d_0;
    let c2 = (half - km_0 * x_0) / d_0;
    let c3 = (km_0 * (1.0 - x_0) - half) / d_0;
    let c4 = (q.ql * dt) / d_0;
    let flow_sum = c1 * q.qup + c2 * q.quc + c3 * q.qdp + c4;
    let qj_0 = excess(flow_sum, &g_0, r_0_2_3, p);

    let g = hydraulic_geometry(s.h, p);
    let r_2_3 = pow23(g.r);
    let ck = kinematic_celerity(s.h, &g, r_2_3, p);
    let km = if ck > 0.0 { dt.max(p.dx / ck) } else { dt };
    let x = weight(p, s.h, ck, flow_sum, 0.25);
    let d = km * (1.0 - x) + half;
    let c1 = (km * x + half) / d;
    let c2 = (half - km * x) / d;
    let c3 = (km * (1.0 - x) - half) / d;
    let mut c4 = (q.ql * dt) / d;
    let base = c1 * q.qup + c2 * q.quc + c3 * q.qdp;
    if c4 < 0.0 && c4.abs() > base {
        c4 = -base;
    }
    let qj = excess(c1 * q.qup + c2 * q.quc + c3 * q.qdp + c4, &g, r_2_3, p);

    let h_1 = if qj_0 - qj != 0.0 {
        let h_new = s.h - (qj * (s.h_0 - s.h) / (qj_0 - qj));
        if h_new < 0.0 {
            s.h
        } else {
            h_new
        }
    } else {
        s.h
    };
    let (rerror, aerror) = if s.h > 0.0 {
        (((h_1 - s.h) / s.h).abs(), (h_1 - s.h).abs())
    } else {
        (0.0, 0.9)
    };
    let h = h_1.max(0.0);
    let settled = h < MINDEPTH || !(rerror > 0.01 && aerror >= MINDEPTH);
    (LaneValues { h, h_0: s.h.max(0.0), c1, c2, c3, c4, qj_0 }, settled)
}

/// Flow, velocity and depth from the solver's last values.
fn finish(input: LaneInput<f32>, s: LaneValues<f32>) -> MuskingumCungeResult<f32> {
    let (p, q) = (&input.reach, &input.flows);
    let twl = p.bw + 2.0 * p.z * s.h;
    let r = (s.h * (p.bw + twl) * 0.5)
        / (p.bw + 2.0 * (((twl - p.bw) * 0.5).powi(2) + s.h.powi(2)).sqrt());
    let base = s.c1 * q.qup + s.c2 * q.quc + s.c3 * q.qdp;
    let flow_sum = base + s.c4;
    let qdc = if flow_sum < 0.0 {
        if s.c4 < 0.0 && s.c4.abs() > base {
            0.0
        } else {
            (s.c1 * q.qup + s.c2 * q.quc + s.c4).max(s.c1 * q.qup + s.c3 * q.qdp + s.c4)
        }
    } else {
        flow_sum
    };
    MuskingumCungeResult { qdc, velc: (1.0 / p.n) * pow23(r) * p.sqrt_so, depthc: s.h }
}

fn lane_step(p: &LaneParams<f32>, q: &LaneFlows<f32>) -> (LaneResult<f32>, u32) {
    let arithmetic = LaneArithmetic {
        bracket: |d: f32| {
            let d = d.max(0.0);
            (d * WIDE.high + WIDE.high_offset, d * WIDE.low)
        },
        absent: |flow: f32| flow <= 0.0,
        advance,
        finish,
    };
    step(p, q, 0.0, &arithmetic)
}

/// Sixteen deliberately dissimilar reaches, so lanes diverge in branch (in-channel vs compound
/// flow) and in iteration count.
fn diverse_reaches() -> Vec<ChannelParams<f32>> {
    let mut out = Vec::with_capacity(LANES);
    let mut seed = 0x243F_6A88_85A3_08D3u64;
    let mut rand = || {
        seed ^= seed << 13;
        seed ^= seed >> 7;
        seed ^= seed << 17;
        ((seed >> 40) as f32) / 16_777_216.0
    };
    for _ in 0..LANES {
        let bw = 1.0 + 60.0 * rand().powi(2);
        let tw = bw * (1.2 + 2.0 * rand());
        out.push(ChannelParams {
            dx: 200.0 + 9000.0 * rand(),
            n: 0.05 + 0.02 * rand(),
            ncc: 0.10 + 0.06 * rand(),
            s0: (10f32).powf(-4.5 + 3.0 * rand()),
            bw,
            tw,
            twcc: tw * (2.0 + 2.0 * rand()),
            cs: 0.4 + 2.5 * rand(),
        });
    }
    out
}

/// A short batch must leave the unused lanes inert and not disturb the active ones.
#[test]
fn test_partial_batch_matches_full_batch() {
    let dt = 300.0f32;
    let reaches = diverse_reaches();
    let full = LaneParams::build(dt, &reaches, 0.0, &derive);
    let partial = LaneParams::build(dt, &reaches[..3], 0.0, &derive);

    let mut quc = [0.0f32; LANES];
    let mut ql = [0.0f32; LANES];
    for i in 0..3 {
        quc[i] = 12.0 + i as f32;
        ql[i] = 1.5 + i as f32;
    }
    let zero = [0.0f32; LANES];
    let flows = LaneFlows { qup: zero, quc, qdp: zero, ql, depth_p: zero };

    let (a, _) = lane_step(&full, &flows);
    let (b, _) = lane_step(&partial, &flows);

    for i in 0..3 {
        assert!(a.qdc[i] > 0.0, "lane {} carries no flow", i);
        assert_eq!(a.qdc[i].to_bits(), b.qdc[i].to_bits(), "lane {} flow", i);
        assert_eq!(a.depthc[i].to_bits(), b.depthc[i].to_bits(), "lane {} depth", i);
    }
    for i in 3..LANES {
        assert_eq!(b.qdc[i], 0.0, "padding lane {} produced flow", i);
    }
}

/// Each lane comes out as it does when it has the batch to itself.
#[test]
fn lanes_do_not_disturb_each_other() {
    let reaches = diverse_reaches();
    let params = LaneParams::build(300.0, &reaches, 0.0, &derive);
    let zero = [0.0f32; LANES];
    let mut all = LaneFlows { qup: zero, quc: zero, qdp: zero, ql: zero, depth_p: zero };
    for i in 0..LANES {
        all.quc[i] = 3.0 + 4.0 * i as f32;
        all.ql[i] = 0.5 + i as f32;
        all.depth_p[i] = 0.1 * i as f32;
    }
    let (together, slowest) = lane_step(&params, &all);
    let mut longest = 0;
    for i in 0..LANES {
        let mut one = LaneFlows { qup: zero, quc: zero, qdp: zero, ql: zero, depth_p: zero };
        one.quc[i] = all.quc[i];
        one.ql[i] = all.ql[i];
        one.depth_p[i] = all.depth_p[i];
        let (alone, iterations) = lane_step(&params, &one);
        assert_eq!(alone.qdc[i].to_bits(), together.qdc[i].to_bits(), "lane {}", i);
        assert_eq!(alone.velc[i].to_bits(), together.velc[i].to_bits(), "lane {}", i);
        assert_eq!(alone.depthc[i].to_bits(), together.depthc[i].to_bits(), "lane {}", i);
        longest = longest.max(iterations);
    }
    assert_eq!(slowest, longest);
}

#[test]
fn padding_lanes_carry_the_first_reach() {
    let reaches = diverse_reaches();
    let lanes = LaneParams::build(300.0, &reaches[..3], 0.0, &derive);
    for i in 0..LANES {
        let want = if i < 3 { &reaches[i] } else { &reaches[0] };
        assert_eq!(lanes.dx[i], want.dx, "lane {}", i);
        assert_eq!(lanes.n[i], want.n, "lane {}", i);
        assert_eq!(lanes.tw_cc[i], want.twcc, "lane {}", i);
        assert_eq!(lanes.dt[i], 300.0);
        assert_eq!(lanes.sqrt_so[i], want.s0.sqrt(), "lane {}", i);
    }
}

fn counting_flows() -> LaneFlows<u32> {
    let zero = [0u32; LANES];
    LaneFlows { qup: zero, quc: zero, qdp: zero, ql: zero, depth_p: zero }
}

/// Lanes whose reaches are told apart by their length.
fn counting_lanes() -> LaneParams<u32> {
    let reaches: Vec<ChannelParams<u32>> = (0..LANES as u32)
        .map(|dx| ChannelParams { dx, n: 0, ncc: 0, s0: 0, bw: 0, tw: 0, twcc: 0, cs: 0 })
        .collect();
    LaneParams::build(60, &reaches, 0, &|p: ChannelParams<u32>| ReachParams {
        dx: p.dx,
        n: 0,
        n_cc: 0,
        so: 0,
        bw: 0,
        tw_cc: 0,
        z: 0,
        bfd: 0,
        sqrt_1_z2: 0,
        sqrt_so: 0,
        sqrt_so_n: 0,
        sqrt_so_ncc: 0,
        bw_2bfd_z: 0,
        two_sqrt_1_z2: 0,
    })
}

/// A settled lane keeps its values while the slower lanes go on.
#[test]
fn settled_lanes_are_frozen() {
    let mut flows = counting_flows();
    for i in 0..LANES {
        flows.quc[i] = i as u32;
        flows.depth_p[i] = 100;
    }
    let arithmetic = LaneArithmetic {
        bracket: |d: u32| (d, d + 1),
        absent: |q: u32| q == 0,
        advance: |input: LaneInput<u32>, s: LaneValues<u32>| {
            let h = s.h + 1;
            (LaneValues { h, c1: s.h_0, ..s }, h == 100 + input.reach.dx)
        },
        finish: |input: LaneInput<u32>, s: LaneValues<u32>| MuskingumCungeResult {
            qdc: s.h,
            velc: s.c1,
            depthc: s.c2 + input.dt,
        },
    };
    let (out, iterations) = step(&counting_lanes(), &flows, 0, &arithmetic);
    assert_eq!(iterations, 15);
    assert_eq!(out.qdc[0], 0);
    assert_eq!(out.velc[0], 0);
    for i in 1..LANES {
        assert_eq!(out.qdc[i], 100 + i as u32);
        assert_eq!(out.velc[i], 101);
        assert_eq!(out.depthc[i], 60);
    }
}

#[test]
fn the_solver_gives_up_in_the_end() {
    let mut flows = counting_flows();
    flows.ql[4] = 1;
    let arithmetic = LaneArithmetic {
        bracket: |d: u32| (d, d),
        absent: |q: u32| q == 0,
        advance: |_: LaneInput<u32>, s: LaneValues<u32>| (LaneValues { h: s.h + 1, ..s }, false),
        finish: |_: LaneInput<u32>, s: LaneValues<u32>| MuskingumCungeResult {
            qdc: s.h,
            velc: s.h,
            depthc: s.h,
        },
    };
    let (out, iterations) = step(&counting_lanes(), &flows, 0, &arithmetic);
    assert_eq!(MAX_ITERATIONS, 101);
    assert_eq!(iterations, 101);
    assert_eq!(out.qdc[4], 101);
    assert_eq!(out.qdc[5], 0);
}

/// Any one of the four flows wakes a lane; with none of them no iteration is spent.
#[test]
fn a_lane_is_dry_only_without_any_flow() {
    let arithmetic = LaneArithmetic {
        bracket: |d: u32| (d, d),
        absent: |q: u32| q == 0,
        advance: |_: LaneInput<u32>, s: LaneValues<u32>| (s, true),
        finish: |_: LaneInput<u32>, _: LaneValues<u32>| MuskingumCungeResult {
            qdc: 7,
            velc: 8,
            depthc: 9,
        },
    };
    let lanes = counting_lanes();
    let (out, iterations) = step(&lanes, &counting_flows(), 0, &arithmetic);
    assert_eq!(iterations, 0);
    assert_eq!(out.qdc, [0; LANES]);
    assert_eq!(out.velc, [0; LANES]);
    assert_eq!(out.depthc, [0; LANES]);

    let mut flows = counting_flows();
    flows.qup[1] = 1;
    flows.quc[2] = 1;
    flows.qdp[3] = 1;
    flows.ql[4] = 1;
    flows.depth_p[5] = 1;
    let (out, iterations) = step(&lanes, &flows, 0, &arithmetic);
    assert_eq!(iterations, 1);
    for i in 0..LANES {
        let want = if (1..5).contains(&i) { (7, 8, 9) } else { (0, 0, 0) };
        assert_eq!((out.qdc[i], out.velc[i], out.depthc[i]), want, "lane {}", i);
    }
}

/// A lane's place makes no difference, and reaches past the lanes are ignored.
#[test]
fn lanes_depend_on_their_own_reach_alone() {
    let reaches = diverse_reaches();
    let mut turned = reaches.clone();
    turned.reverse();
    let mut longer = reaches.clone();
    longer.extend(diverse_reaches());
    let forward = LaneParams::build(300.0, &reaches, 0.0, &derive);
    let backward = LaneParams::build(300.0, &turned, 0.0, &derive);
    let past = LaneParams::build(300.0, &longer, 0.0, &derive);

    let zero = [0.0f32; LANES];
    let mut a = LaneFlows { qup: zero, quc: zero, qdp: zero, ql: zero, depth_p: zero };
    let mut b = LaneFlows { qup: zero, quc: zero, qdp: zero, ql: zero, depth_p: zero };
    for i in 0..LANES {
        a.quc[i] = 1.0 + i as f32;
        b.quc[LANES - 1 - i] = 1.0 + i as f32;
    }
    let (x, n) = lane_step(&forward, &a);
    let (y, m) = lane_step(&backward, &b);
    assert_eq!(n, m);
    for i in 0..LANES {
        assert_eq!(x.qdc[i].to_bits(), y.qdc[LANES - 1 - i].to_bits(), "lane {}", i);
        assert_eq!(past.dx[i].to_bits(), forward.dx[i].to_bits(), "lane {}", i);
        assert_eq!(past.bfd[i].to_bits(), forward.bfd[i].to_bits(), "lane {}", i);
    }
}

#[test]
fn select_takes_lane_by_lane() {
    let mut mask = [false; LANES];
    mask[0] = true;
    mask[7] = true;
    let out = select(&mask, &[1u8; LANES], &[2u8; LANES]);
    for i in 0..LANES {
        assert_eq!(out[i], if i == 0 || i == 7 { 1 } else { 2 });
    }
}

#[test]
fn the_cube_root_seed_is_close_enough() {
    assert_eq!(cube_root_seed(0), 709_921_077);
    assert_eq!(cube_root_seed(300), 709_921_177);
    for x in [1e-6f32, 0.3, 1.0, 8.0, 1234.5, 3e7] {
        let got = pow23(x);
        let want = x.powf(2.0 / 3.0);
        assert!(((got - want) / want).abs() < 1e-3, "{}: {} against {}", x, got, want);
    }
    assert_eq!(pow23(-1.0), 0.0);
}

#[test]
fn kernels_are_known_by_name() {
    let all = [
        (MuskingumCungeKernel::RouteRs, "route-rs"),
        (MuskingumCungeKernel::RouteRsSimd, "route-rs-simd"),
        (MuskingumCungeKernel::TRouteModernized, "t-route-modernized"),
        (MuskingumCungeKernel::TRouteLegacy, "t-route-legacy"),
        (MuskingumCungeKernel::CMuskingumCunge, "c-muskingum-cunge"),
    ];
    for (kernel, name) in all {
        assert_eq!(kernel.name(), name);
        assert_eq!(MuskingumCungeKernel::from_name(name), Some(kernel));
        assert_eq!(kernel.is_batched(), name == "route-rs-simd");
    }
    assert_eq!(MuskingumCungeKernel::from_name("route"), None);
    assert_eq!(MuskingumCungeKernel::from_name(""), None);
}
