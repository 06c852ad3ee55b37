//! The per-frame relaxation of node positions: spring attraction along
//! edges, pairwise repulsion, fixed anchor columns for sensor and output
//! roles. All coordinates are fixed-point milli-units.

use vstd::prelude::*;
use crate::graph::{Node, NodeV, nodes_view};
use crate::network::NodeType;
use crate::rng::random_in_range;

verus! {

/// Coordinates the layout accepts, in milli-units either side of zero.
/// New positions are clamped back into this box, which keeps every later
/// force computation inside `i64`.
pub const POS_LIMIT: i64 = 1_000_000_000;

/// Rest length of an edge spring, in milli-units (50 units).
pub const SPRING_REST: i64 = 50_000;

/// Spring divisor: the spring constant is `1 / SPRING_DIV` (0.2).
pub const SPRING_DIV: i64 = 5;

/// A spring toward a sensor or output neighbor is `ANCHOR_SCALE` times
/// weaker than one toward a hidden neighbor, so the layout does not fight
/// the fixed columns; the default ratio is 1:40.
pub const ANCHOR_SCALE: i64 = 40;

/// Divisor of the spring toward an anchored neighbor.
pub const ANCHOR_DIV: i64 = SPRING_DIV * ANCHOR_SCALE;

/// Rest length of the pairwise repulsion, in milli-units (150 units).
pub const REPULSE_REST: i64 = 150_000;

/// Repulsion divisor: the repulsion constant is `1 / REPULSE_DIV` (0.001).
pub const REPULSE_DIV: i64 = 1000;

/// Jitter either side of the canvas center when a hidden node is first
/// seeded, in milli-units (10 units per axis).
pub const JITTER: i64 = 10_000;

/// One force component never exceeds this magnitude: the largest distance
/// two in-bounds positions can have, plus the largest rest length.
pub const FORCE_CAP: i64 = 3_100_000_000;

/// A 2-D position or displacement in milli-units.
#[derive(Clone, Copy, Debug, PartialEq, Eq, Structural)]
pub struct Vec2M {
    pub x: i64,
    pub y: i64,
}

/// Both coordinates inside the accepted box.
pub open spec fn in_bounds(p: Vec2M) -> bool {
    -POS_LIMIT <= p.x <= POS_LIMIT && -POS_LIMIT <= p.y <= POS_LIMIT
}

pub open spec fn abs_int(v: int) -> int {
    if v >= 0 {
        v
    } else {
        -v
    }
}

/// `r` is the integer square root of `n`, rounded down.
pub open spec fn is_isqrt(n: int, r: int) -> bool {
    0 <= r && r * r <= n && n < (r + 1) * (r + 1)
}

/// The integer square root of `n`, rounded down.
pub open spec fn isqrt_of(n: int) -> int {
    choose|r: int| is_isqrt(n, r)
}

/// The integer square root is unique.
pub proof fn lemma_isqrt_unique(n: int, a: int, b: int)
    requires
        is_isqrt(n, a),
        is_isqrt(n, b),
    ensures
        a == b,
{
    assert(a == b) by (nonlinear_arith)
        requires
            0 <= a,
            0 <= b,
            a * a <= n,
            n < (a + 1) * (a + 1),
            b * b <= n,
            n < (b + 1) * (b + 1),
    ;
}

/// Integer square root by bisection.
pub fn isqrt64(n: u64) -> (r: u64)
    ensures
        is_isqrt(n as int, r as int),
        r as int == isqrt_of(n as int),
        r <= 4_294_967_296,
{
    let mut lo: u64 = 0;
    let mut hi: u64 = 4_294_967_296;
    assert((hi as int) * (hi as int) > n as int) by (nonlinear_arith)
        requires
            hi == 4_294_967_296u64,
            n <= u64::MAX,
    ;
    while lo + 1 < hi
        invariant
            lo < hi <= 4_294_967_296,
            (lo as int) * (lo as int) <= n as int,
            (n as int) < (hi as int) * (hi as int),
        decreases hi - lo,
    {
        let mid = lo + (hi - lo) / 2;
        proof {
            assert(mid as int * mid as int <= 0x10000000000000000) by (nonlinear_arith)
                requires
                    0 <= mid as int <= 0x100000000,
            ;
        }
        if (mid as u128) * (mid as u128) <= n as u128 {
            lo = mid;
        } else {
            hi = mid;
        }
    }
    proof {
        assert(is_isqrt(n as int, lo as int));
        lemma_isqrt_unique(n as int, lo as int, isqrt_of(n as int));
    }
    lo
}

/// Squared distance between two positions.
pub open spec fn dist2(a: Vec2M, b: Vec2M) -> int {
    (a.x - b.x) * (a.x - b.x) + (a.y - b.y) * (a.y - b.y)
}

/// Euclidean distance, rounded down to whole milli-units.
pub open spec fn spec_dist(a: Vec2M, b: Vec2M) -> int {
    isqrt_of(dist2(a, b))
}

/// Distance between two in-bounds positions; at most 3,000,000,000.
pub fn dist(a: Vec2M, b: Vec2M) -> (r: i64)
    requires
        in_bounds(a),
        in_bounds(b),
    ensures
        is_isqrt(dist2(a, b), r as int),
        r as int == spec_dist(a, b),
        0 <= r <= 3_000_000_000,
{
    let dx: i64 = a.x - b.x;
    let dy: i64 = a.y - b.y;
    proof {
        assert(0 <= dx as int * dx as int <= 4_000_000_000_000_000_000 && 0 <= dy as int * dy as int
            <= 4_000_000_000_000_000_000) by (nonlinear_arith)
            requires
                -2_000_000_000 <= dx as int <= 2_000_000_000,
                -2_000_000_000 <= dy as int <= 2_000_000_000,
        ;
    }
    let d2: i128 = (dx as i128) * (dx as i128) + (dy as i128) * (dy as i128);
    assert(d2 == dist2(a, b));
    assert(0 <= d2 <= 8_000_000_000_000_000_000i128);
    let r = isqrt64(d2 as u64);
    proof {
        assert(r <= 3_000_000_000) by (nonlinear_arith)
            requires
                is_isqrt(d2 as int, r as int),
                d2 <= 8_000_000_000_000_000_000i128,
        ;
    }
    r as i64
}

/// The contribution toward `b`: magnitude `|delta| * |diff| / den` with the
/// sign of `delta * diff`, matching truncating fixed-point arithmetic.
pub open spec fn scaled_toward(delta: int, diff: int, den: int) -> int {
    let mag = (abs_int(delta) * abs_int(diff)) / den;
    if (delta >= 0) == (diff >= 0) {
        mag
    } else {
        -mag
    }
}

/// A Hooke-style force on `a`: directed along the unit vector from `a` to
/// `b`, with magnitude `(dist - rest) / den_per_len`. A zero distance is
/// guarded: coincident points exert no force.
pub open spec fn spec_force(a: Vec2M, b: Vec2M, rest: int, den_per_len: int) -> (int, int) {
    let len = spec_dist(a, b);
    if len <= 0 {
        (0, 0)
    } else {
        let diff = len - rest;
        (
            scaled_toward(b.x - a.x, diff, den_per_len * len),
            scaled_toward(b.y - a.y, diff, den_per_len * len),
        )
    }
}

/// One signed component of a force: `delta * diff / (den_per_len * len)`,
/// truncated toward zero. Because `|delta| <= len`, the magnitude never
/// exceeds `|diff|`.
fn force_component(delta: i64, diff: i64, den_per_len: i64, len: i64) -> (r: i64)
    requires
        1 <= len <= 3_000_000_000,
        abs_int(delta as int) <= len as int,
        abs_int(diff as int) <= len as int + 1_000_000,
        1 <= den_per_len <= 1_000_000,
    ensures
        r as int == scaled_toward(delta as int, diff as int, den_per_len as int * len as int),
        -FORCE_CAP <= r <= FORCE_CAP,
{
    let da: u64 = (if delta >= 0 {
        delta
    } else {
        -delta
    }) as u64;
    let fa: u64 = (if diff >= 0 {
        diff
    } else {
        -diff
    }) as u64;
    proof {
        assert(0 <= da as int * fa as int <= 9_400_000_000_000_000_000
            && da as int * fa as int <= len as int * fa as int
            && 1 <= den_per_len as int * len as int <= 3_000_000_000_000_000) by (nonlinear_arith)
            requires
                0 <= da as int <= len as int,
                0 <= fa as int <= 3_100_000_000,
                1 <= len as int <= 3_000_000_000,
                1 <= den_per_len as int <= 1_000_000,
        ;
    }
    let den: u128 = (den_per_len as u128) * (len as u128);
    let mag: u128 = ((da as u128) * (fa as u128)) / den;
    proof {
        let dai = da as int;
        let fai = fa as int;
        let leni = len as int;
        let deni = den as int;
        vstd::arithmetic::div_mod::lemma_div_is_ordered(dai * fai, leni * fai, deni);
        assert(leni <= deni) by (nonlinear_arith)
            requires
                1 <= den_per_len as int,
                1 <= leni,
                deni == den_per_len as int * leni,
        ;
        vstd::arithmetic::div_mod::lemma_div_is_ordered_by_denominator(leni * fai, leni, deni);
        vstd::arithmetic::div_mod::lemma_div_multiples_vanish(fai, leni);
        assert(mag as int <= fai);
    }
    if (delta >= 0) == (diff >= 0) {
        (mag as i64)
    } else {
        -(mag as i64)
    }
}

/// The generalized force of `spec_force`, executable.
fn force_toward(a: Vec2M, b: Vec2M, rest: i64, den_per_len: i64) -> (r: Vec2M)
    requires
        in_bounds(a),
        in_bounds(b),
        0 <= rest <= 1_000_000,
        1 <= den_per_len <= 1_000_000,
    ensures
        r.x as int == spec_force(a, b, rest as int, den_per_len as int).0,
        r.y as int == spec_force(a, b, rest as int, den_per_len as int).1,
        -FORCE_CAP <= r.x <= FORCE_CAP,
        -FORCE_CAP <= r.y <= FORCE_CAP,
{
    let len = dist(a, b);
    if len == 0 {
        Vec2M { x: 0, y: 0 }
    } else {
        let diff: i64 = len - rest;
        proof {
            let dx = a.x as int - b.x;
            let dy = a.y as int - b.y;
            assert(abs_int(b.x as int - a.x as int) <= len as int && abs_int(
                b.y as int - a.y as int,
            ) <= len as int) by (nonlinear_arith)
                requires
                    0 <= len as int,
                    dx == a.x as int - b.x as int,
                    dy == a.y as int - b.y as int,
                    dx * dx + dy * dy < (len as int + 1) * (len as int + 1),
            ;
        }
        Vec2M {
            x: force_component(b.x - a.x, diff, den_per_len, len),
            y: force_component(b.y - a.y, diff, den_per_len, len),
        }
    }
}

/// The spring along an edge toward a hidden neighbor.
pub open spec fn spec_spring_force(a: Vec2M, b: Vec2M) -> (int, int) {
    spec_force(a, b, SPRING_REST as int, SPRING_DIV as int)
}

/// The spring along an edge toward an anchored (sensor or output)
/// neighbor: `ANCHOR_SCALE` times weaker.
pub open spec fn spec_anchor_spring(a: Vec2M, b: Vec2M) -> (int, int) {
    spec_force(a, b, SPRING_REST as int, ANCHOR_DIV as int)
}

/// The pairwise term between any two nodes: linear in
/// `(dist - REPULSE_REST)`, repelling inside the rest length.
pub open spec fn spec_repulsion(a: Vec2M, b: Vec2M) -> (int, int) {
    spec_force(a, b, REPULSE_REST as int, REPULSE_DIV as int)
}

/// Spring force on `a` toward a hidden neighbor at `b`: Hooke's law with
/// rest length `SPRING_REST` and constant `1 / SPRING_DIV`.
pub fn spring_force(a: Vec2M, b: Vec2M) -> (r: Vec2M)
    requires
        in_bounds(a),
        in_bounds(b),
    ensures
        r.x as int == spec_spring_force(a, b).0,
        r.y as int == spec_spring_force(a, b).1,
        -FORCE_CAP <= r.x <= FORCE_CAP,
        -FORCE_CAP <= r.y <= FORCE_CAP,
{
    force_toward(a, b, SPRING_REST, SPRING_DIV)
}

/// Pairwise repulsion on `a` from `b`, applied between every pair of
/// distinct positions regardless of connectivity.
pub fn repulsion(a: Vec2M, b: Vec2M) -> (r: Vec2M)
    requires
        in_bounds(a),
        in_bounds(b),
    ensures
        r.x as int == spec_repulsion(a, b).0,
        r.y as int == spec_repulsion(a, b).1,
        -FORCE_CAP <= r.x <= FORCE_CAP,
        -FORCE_CAP <= r.y <= FORCE_CAP,
{
    force_toward(a, b, REPULSE_REST, REPULSE_DIV)
}

/// Every edge of every node points inside the table.
pub open spec fn edges_wf(nodes: Seq<NodeV>) -> bool {
    &&& forall|i: int, e: int|
        0 <= i < nodes.len() && 0 <= e < nodes[i].input.len()
            ==> #[trigger] nodes[i].input[e] < nodes.len()
    &&& forall|i: int, e: int|
        0 <= i < nodes.len() && 0 <= e < nodes[i].output.len()
            ==> #[trigger] nodes[i].output[e] < nodes.len()
}

/// Every role ordinal has its anchor, and every anchor is in bounds.
pub open spec fn anchors_wf(nodes: Seq<NodeV>, spos: Seq<Vec2M>, opos: Seq<Vec2M>) -> bool {
    &&& forall|i: int|
        0 <= i < nodes.len() ==> ((#[trigger] nodes[i]).id matches NodeType::Sensor(x) ==> x
            < spos.len())
    &&& forall|i: int|
        0 <= i < nodes.len() ==> ((#[trigger] nodes[i]).id matches NodeType::Output(x) ==> x
            < opos.len())
    &&& forall|k: int| 0 <= k < spos.len() ==> in_bounds(#[trigger] spos[k])
    &&& forall|k: int| 0 <= k < opos.len() ==> in_bounds(#[trigger] opos[k])
}

/// The full precondition of a relaxation frame: anchors and edges well
/// formed, one in-bounds position per node.
pub open spec fn layout_wf(nodes: Seq<NodeV>, spos: Seq<Vec2M>, opos: Seq<Vec2M>, npos: Seq<Vec2M>) -> bool {
    &&& anchors_wf(nodes, spos, opos)
    &&& edges_wf(nodes)
    &&& npos.len() == nodes.len()
    &&& forall|k: int| 0 <= k < npos.len() ==> in_bounds(#[trigger] npos[k])
}

/// Where node `j` sits this frame: anchored roles read their anchor
/// column, hidden roles read the position table.
pub open spec fn spec_node_pos(
    nodes: Seq<NodeV>,
    spos: Seq<Vec2M>,
    opos: Seq<Vec2M>,
    npos: Seq<Vec2M>,
    j: int,
) -> Vec2M {
    match nodes[j].id {
        NodeType::Sensor(x) => spos[x as int],
        NodeType::Output(x) => opos[x as int],
        NodeType::Hidden(_) => npos[j],
    }
}

/// Sum of the spring terms of the neighbor list `nbrs`, from the previous
/// frame's full snapshot: full-strength springs toward hidden neighbors,
/// `ANCHOR_SCALE` times weaker ones toward anchored neighbors.
pub open spec fn spec_spring_sum(
    nodes: Seq<NodeV>,
    spos: Seq<Vec2M>,
    opos: Seq<Vec2M>,
    npos: Seq<Vec2M>,
    c: Vec2M,
    nbrs: Seq<usize>,
) -> (int, int)
    decreases nbrs.len(),
{
    if nbrs.len() == 0 {
        (0, 0)
    } else {
        let prev = spec_spring_sum(nodes, spos, opos, npos, c, nbrs.drop_last());
        let j = nbrs.last() as int;
        let p = spec_node_pos(nodes, spos, opos, npos, j);
        let f = if nodes[j].id is Hidden {
            spec_spring_force(c, p)
        } else {
            spec_anchor_spring(c, p)
        };
        (prev.0 + f.0, prev.1 + f.1)
    }
}

/// Sum of the repulsion terms from the first `k` positions of the
/// snapshot. Coincident positions (the node itself included) contribute
/// nothing, which realizes the zero-distance guard.
pub open spec fn spec_repulsion_sum(npos: Seq<Vec2M>, c: Vec2M, k: int) -> (int, int)
    decreases k,
{
    if k <= 0 {
        (0, 0)
    } else {
        let prev = spec_repulsion_sum(npos, c, k - 1);
        let f = spec_repulsion(c, npos[k - 1]);
        (prev.0 + f.0, prev.1 + f.1)
    }
}

/// The relaxed position of hidden node `i`: the previous position plus
/// the net spring and repulsion displacement, clamped into the box.
pub open spec fn spec_relaxed(
    nodes: Seq<NodeV>,
    spos: Seq<Vec2M>,
    opos: Seq<Vec2M>,
    npos: Seq<Vec2M>,
    i: int,
) -> Vec2M {
    let c = npos[i];
    let s1 = spec_spring_sum(nodes, spos, opos, npos, c, nodes[i].input);
    let s2 = spec_spring_sum(nodes, spos, opos, npos, c, nodes[i].output);
    let rp = spec_repulsion_sum(npos, c, npos.len() as int);
    Vec2M {
        x: clamp_coord(c.x + s1.0 + s2.0 + rp.0),
        y: clamp_coord(c.y + s1.1 + s2.1 + rp.1),
    }
}

/// One full frame: anchored roles are repositioned onto their anchors,
/// hidden roles relax, all from the previous frame's snapshot.
pub open spec fn spec_step(
    nodes: Seq<NodeV>,
    spos: Seq<Vec2M>,
    opos: Seq<Vec2M>,
    npos: Seq<Vec2M>,
) -> Seq<Vec2M> {
    Seq::new(
        npos.len(),
        |i: int|
            match nodes[i].id {
                NodeType::Sensor(x) => spos[x as int],
                NodeType::Output(x) => opos[x as int],
                NodeType::Hidden(_) => spec_relaxed(nodes, spos, opos, npos, i),
            },
    )
}

/// A coordinate pulled back into the accepted box.
pub open spec fn clamp_coord(v: int) -> i64 {
    if v < -POS_LIMIT {
        (-POS_LIMIT) as i64
    } else if v > POS_LIMIT {
        POS_LIMIT
    } else {
        v as i64
    }
}

fn clamp_to_box(v: i128) -> (r: i64)
    ensures
        r as int == clamp_coord(v as int),
        -POS_LIMIT <= r <= POS_LIMIT,
{
    if v < -(POS_LIMIT as i128) {
        -POS_LIMIT
    } else if v > POS_LIMIT as i128 {
        POS_LIMIT
    } else {
        v as i64
    }
}

/// The spring toward an anchored neighbor, `ANCHOR_SCALE` times weaker
/// than `spring_force`.
pub fn anchor_spring(a: Vec2M, b: Vec2M) -> (r: Vec2M)
    requires
        in_bounds(a),
        in_bounds(b),
    ensures
        r.x as int == spec_anchor_spring(a, b).0,
        r.y as int == spec_anchor_spring(a, b).1,
        -FORCE_CAP <= r.x <= FORCE_CAP,
        -FORCE_CAP <= r.y <= FORCE_CAP,
{
    force_toward(a, b, SPRING_REST, ANCHOR_DIV)
}

fn node_pos_of(
    network: &Vec<Node>,
    spos: &Vec<Vec2M>,
    opos: &Vec<Vec2M>,
    npos: &Vec<Vec2M>,
    j: usize,
) -> (r: Vec2M)
    requires
        layout_wf(nodes_view(network@), spos@, opos@, npos@),
        j < network@.len(),
    ensures
        r == spec_node_pos(nodes_view(network@), spos@, opos@, npos@, j as int),
        in_bounds(r),
{
    proof {
        assert(nodes_view(network@)[j as int] == network@[j as int]@);
    }
    match network[j].id {
        NodeType::Sensor(x) => spos[x],
        NodeType::Output(x) => opos[x],
        NodeType::Hidden(_) => npos[j],
    }
}

fn spring_sum(
    network: &Vec<Node>,
    spos: &Vec<Vec2M>,
    opos: &Vec<Vec2M>,
    npos: &Vec<Vec2M>,
    c: Vec2M,
    nbrs: &Vec<usize>,
) -> (r: (i128, i128))
    requires
        layout_wf(nodes_view(network@), spos@, opos@, npos@),
        in_bounds(c),
        forall|k: int| 0 <= k < nbrs@.len() ==> #[trigger] nbrs@[k] < network@.len(),
    ensures
        r.0 as int == spec_spring_sum(nodes_view(network@), spos@, opos@, npos@, c, nbrs@).0,
        r.1 as int == spec_spring_sum(nodes_view(network@), spos@, opos@, npos@, c, nbrs@).1,
        -60_000_000_000_000_000_000_000_000_000i128 <= r.0 <= 60_000_000_000_000_000_000_000_000_000i128,
        -60_000_000_000_000_000_000_000_000_000i128 <= r.1 <= 60_000_000_000_000_000_000_000_000_000i128,
{
    let ghost nodes = nodes_view(network@);
    let m = nbrs.len();
    let mut acc_x: i128 = 0;
    let mut acc_y: i128 = 0;
    let mut k: usize = 0;
    while k < m
        invariant
            layout_wf(nodes, spos@, opos@, npos@),
            nodes == nodes_view(network@),
            in_bounds(c),
            forall|j: int| 0 <= j < nbrs@.len() ==> #[trigger] nbrs@[j] < network@.len(),
            m == nbrs@.len(),
            0 <= k <= m,
            acc_x as int == spec_spring_sum(nodes, spos@, opos@, npos@, c, nbrs@.take(k as int)).0,
            acc_y as int == spec_spring_sum(nodes, spos@, opos@, npos@, c, nbrs@.take(k as int)).1,
            abs_int(acc_x as int) <= k * FORCE_CAP,
            abs_int(acc_y as int) <= k * FORCE_CAP,
        decreases m - k,
    {
        let j = nbrs[k];
        let p = node_pos_of(network, spos, opos, npos, j);
        proof {
            assert(nodes[j as int] == network@[j as int]@);
        }
        let hidden = match network[j].id {
            NodeType::Hidden(_) => true,
            _ => false,
        };
        let f = if hidden {
            spring_force(c, p)
        } else {
            anchor_spring(c, p)
        };
        proof {
            assert((k + 1) * (FORCE_CAP as int) <= 60_000_000_000_000_000_000_000_000_000)
                by (nonlinear_arith)
                requires
                    0 <= k as int + 1 <= 18_446_744_073_709_551_616,
            ;
            assert(k * (FORCE_CAP as int) + FORCE_CAP as int == (k + 1) * (FORCE_CAP as int))
                by (nonlinear_arith);
            assert(nbrs@.take(k + 1 as int).drop_last() =~= nbrs@.take(k as int));
            assert(nbrs@.take(k + 1 as int).last() == nbrs@[k as int]);
        }
        acc_x = acc_x + f.x as i128;
        acc_y = acc_y + f.y as i128;
        k += 1;
    }
    proof {
        assert(nbrs@.take(m as int) =~= nbrs@);
        assert(m * (FORCE_CAP as int) <= 60_000_000_000_000_000_000_000_000_000) by (nonlinear_arith)
            requires
                0 <= m as int <= 18_446_744_073_709_551_615,
        ;
    }
    (acc_x, acc_y)
}

fn repulsion_sum(npos: &Vec<Vec2M>, c: Vec2M) -> (r: (i128, i128))
    requires
        in_bounds(c),
        forall|k: int| 0 <= k < npos@.len() ==> in_bounds(#[trigger] npos@[k]),
    ensures
        r.0 as int == spec_repulsion_sum(npos@, c, npos@.len() as int).0,
        r.1 as int == spec_repulsion_sum(npos@, c, npos@.len() as int).1,
        -60_000_000_000_000_000_000_000_000_000i128 <= r.0 <= 60_000_000_000_000_000_000_000_000_000i128,
        -60_000_000_000_000_000_000_000_000_000i128 <= r.1 <= 60_000_000_000_000_000_000_000_000_000i128,
{
    let m = npos.len();
    let mut acc_x: i128 = 0;
    let mut acc_y: i128 = 0;
    let mut k: usize = 0;
    while k < m
        invariant
            in_bounds(c),
            forall|j: int| 0 <= j < npos@.len() ==> in_bounds(#[trigger] npos@[j]),
            m == npos@.len(),
            0 <= k <= m,
            acc_x as int == spec_repulsion_sum(npos@, c, k as int).0,
            acc_y as int == spec_repulsion_sum(npos@, c, k as int).1,
            abs_int(acc_x as int) <= k * FORCE_CAP,
            abs_int(acc_y as int) <= k * FORCE_CAP,
        decreases m - k,
    {
        let f = repulsion(c, npos[k]);
        proof {
            assert((k + 1) * (FORCE_CAP as int) <= 60_000_000_000_000_000_000_000_000_000)
                by (nonlinear_arith)
                requires
                    0 <= k as int + 1 <= 18_446_744_073_709_551_616,
            ;
            assert(k * (FORCE_CAP as int) + FORCE_CAP as int == (k + 1) * (FORCE_CAP as int))
                by (nonlinear_arith);
        }
        acc_x = acc_x + f.x as i128;
        acc_y = acc_y + f.y as i128;
        k += 1;
    }
    proof {
        assert(m * (FORCE_CAP as int) <= 60_000_000_000_000_000_000_000_000_000) by (nonlinear_arith)
            requires
                0 <= m as int <= 18_446_744_073_709_551_615,
        ;
    }
    (acc_x, acc_y)
}

fn relax_node(
    network: &Vec<Node>,
    spos: &Vec<Vec2M>,
    opos: &Vec<Vec2M>,
    npos: &Vec<Vec2M>,
    i: usize,
) -> (r: Vec2M)
    requires
        layout_wf(nodes_view(network@), spos@, opos@, npos@),
        i < network@.len(),
    ensures
        r == spec_relaxed(nodes_view(network@), spos@, opos@, npos@, i as int),
        in_bounds(r),
{
    let ghost nodes = nodes_view(network@);
    proof {
        assert(nodes[i as int] == network@[i as int]@);
    }
    let c = npos[i];
    let node = &network[i];
    proof {
        assert(node.input@ == nodes[i as int].input);
        assert(node.output@ == nodes[i as int].output);
        assert forall|k: int| 0 <= k < node.input@.len() implies node.input@[k] < network@.len() by {
            assert(nodes[i as int].input[k] < nodes.len());
        }
        assert forall|k: int| 0 <= k < node.output@.len() implies node.output@[k]
            < network@.len() by {
            assert(nodes[i as int].output[k] < nodes.len());
        }
    }
    let s_in = spring_sum(network, spos, opos, npos, c, &node.input);
    let s_out = spring_sum(network, spos, opos, npos, c, &node.output);
    let rp = repulsion_sum(npos, c);
    let tx: i128 = c.x as i128 + s_in.0 + s_out.0 + rp.0;
    let ty: i128 = c.y as i128 + s_in.1 + s_out.1 + rp.1;
    Vec2M { x: clamp_to_box(tx), y: clamp_to_box(ty) }
}

/// Advance the layout by one frame from the previous frame's full
/// snapshot (simultaneous update): sensor and output roles are set onto
/// their anchors, each hidden role moves by its net spring and repulsion
/// displacement.
pub fn step(
    network: &Vec<Node>,
    sensor_pos: &Vec<Vec2M>,
    output_pos: &Vec<Vec2M>,
    node_pos: &Vec<Vec2M>,
) -> (r: Vec<Vec2M>)
    requires
        layout_wf(nodes_view(network@), sensor_pos@, output_pos@, node_pos@),
    ensures
        r@ == spec_step(nodes_view(network@), sensor_pos@, output_pos@, node_pos@),
        r@.len() == node_pos@.len(),
        forall|k: int| 0 <= k < r@.len() ==> in_bounds(#[trigger] r@[k]),
        forall|i: int|
            0 <= i < r@.len() ==> ((#[trigger] nodes_view(network@)[i]).id matches NodeType::Sensor(x)
                ==> r@[i] == sensor_pos@[x as int]),
        forall|i: int|
            0 <= i < r@.len() ==> ((#[trigger] nodes_view(network@)[i]).id matches NodeType::Output(x)
                ==> r@[i] == output_pos@[x as int]),
        forall|i: int|
            0 <= i < r@.len() ==> ((#[trigger] nodes_view(network@)[i]).id is Hidden ==> r@[i]
                == spec_relaxed(nodes_view(network@), sensor_pos@, output_pos@, node_pos@, i)),
{
    let ghost nodes = nodes_view(network@);
    let n = node_pos.len();
    let mut out: Vec<Vec2M> = Vec::new();
    let mut i: usize = 0;
    while i < n
        invariant
            layout_wf(nodes, sensor_pos@, output_pos@, node_pos@),
            nodes == nodes_view(network@),
            n == node_pos@.len(),
            n == network@.len(),
            0 <= i <= n,
            out@.len() == i,
            forall|j: int|
                0 <= j < i ==> #[trigger] out@[j] == spec_step(nodes, sensor_pos@, output_pos@, node_pos@)[j],
            forall|j: int| 0 <= j < i ==> in_bounds(#[trigger] out@[j]),
        decreases n - i,
    {
        proof {
            assert(nodes[i as int] == network@[i as int]@);
        }
        let next = match network[i].id {
            NodeType::Sensor(x) => sensor_pos[x],
            NodeType::Output(x) => output_pos[x],
            NodeType::Hidden(_) => relax_node(network, sensor_pos, output_pos, node_pos, i),
        };
        out.push(next);
        i += 1;
    }
    proof {
        assert(out@ =~= spec_step(nodes, sensor_pos@, output_pos@, node_pos@));
    }
    out
}

/// Seed the position table after a rebuild: anchored roles start on their
/// anchors, hidden roles at the canvas center plus an independent random
/// jitter of at most `JITTER` per axis, to break symmetry.
pub fn seed_positions(
    network: &Vec<Node>,
    sensor_pos: &Vec<Vec2M>,
    output_pos: &Vec<Vec2M>,
    center: Vec2M,
) -> (r: Vec<Vec2M>)
    requires
        anchors_wf(nodes_view(network@), sensor_pos@, output_pos@),
        -POS_LIMIT + JITTER <= center.x <= POS_LIMIT - JITTER,
        -POS_LIMIT + JITTER <= center.y <= POS_LIMIT - JITTER,
    ensures
        r@.len() == network@.len(),
        forall|i: int|
            0 <= i < network@.len() ==> ((#[trigger] nodes_view(network@)[i]).id matches NodeType::Sensor(x)
                ==> r@[i] == sensor_pos@[x as int]),
        forall|i: int|
            0 <= i < network@.len() ==> ((#[trigger] nodes_view(network@)[i]).id matches NodeType::Output(x)
                ==> r@[i] == output_pos@[x as int]),
        forall|i: int|
            0 <= i < network@.len() ==> ((#[trigger] nodes_view(network@)[i]).id is Hidden
                ==> abs_int(r@[i].x - center.x) <= JITTER && abs_int(r@[i].y - center.y) <= JITTER),
        forall|k: int| 0 <= k < r@.len() ==> in_bounds(#[trigger] r@[k]),
{
    let ghost nodes = nodes_view(network@);
    let n = network.len();
    let mut out: Vec<Vec2M> = Vec::new();
    let mut i: usize = 0;
    while i < n
        invariant
            anchors_wf(nodes, sensor_pos@, output_pos@),
            nodes == nodes_view(network@),
            n == network@.len(),
            -POS_LIMIT + JITTER <= center.x <= POS_LIMIT - JITTER,
            -POS_LIMIT + JITTER <= center.y <= POS_LIMIT - JITTER,
            0 <= i <= n,
            out@.len() == i,
            forall|j: int|
                0 <= j < i ==> ((#[trigger] nodes[j]).id matches NodeType::Sensor(x) ==> out@[j]
                    == sensor_pos@[x as int]),
            forall|j: int|
                0 <= j < i ==> ((#[trigger] nodes[j]).id matches NodeType::Output(x) ==> out@[j]
                    == output_pos@[x as int]),
            forall|j: int|
                0 <= j < i ==> ((#[trigger] nodes[j]).id is Hidden ==> abs_int(out@[j].x - center.x)
                    <= JITTER && abs_int(out@[j].y - center.y) <= JITTER),
            forall|j: int| 0 <= j < i ==> in_bounds(#[trigger] out@[j]),
        decreases n - i,
    {
        proof {
            assert(nodes[i as int] == network@[i as int]@);
        }
        let next = match network[i].id {
            NodeType::Sensor(x) => sensor_pos[x],
            NodeType::Output(x) => output_pos[x],
            NodeType::Hidden(_) => Vec2M {
                x: center.x + random_in_range(-JITTER, JITTER),
                y: center.y + random_in_range(-JITTER, JITTER),
            },
        };
        out.push(next);
        i += 1;
    }
    out
}

/// The layout's two-state lifecycle: `initialized` is false until the
/// first frame after a rebuild has seeded the position table.
pub struct LayoutState {
    pub initialized: bool,
    pub node_pos: Vec<Vec2M>,
}

impl LayoutState {
    /// A fresh, unseeded layout.
    pub fn new() -> (r: Self)
        ensures
            !r.initialized,
            r.node_pos@.len() == 0,
    {
        LayoutState { initialized: false, node_pos: Vec::new() }
    }

    /// One frame: the first call after a rebuild seeds the table, every
    /// later call relaxes it from the previous snapshot.
    pub fn advance(
        &mut self,
        network: &Vec<Node>,
        sensor_pos: &Vec<Vec2M>,
        output_pos: &Vec<Vec2M>,
        center: Vec2M,
    )
        requires
            anchors_wf(nodes_view(network@), sensor_pos@, output_pos@),
            edges_wf(nodes_view(network@)),
            -POS_LIMIT + JITTER <= center.x <= POS_LIMIT - JITTER,
            -POS_LIMIT + JITTER <= center.y <= POS_LIMIT - JITTER,
            old(self).initialized ==> old(self).node_pos@.len() == network@.len(),
            old(self).initialized ==> forall|k: int|
                0 <= k < old(self).node_pos@.len() ==> in_bounds(#[trigger] old(self).node_pos@[k]),
        ensures
            final(self).initialized,
            final(self).node_pos@.len() == network@.len(),
            forall|k: int|
                0 <= k < final(self).node_pos@.len() ==> in_bounds(#[trigger] final(self).node_pos@[k]),
            !old(self).initialized ==> {
                &&& forall|i: int|
                    0 <= i < network@.len() ==> ((#[trigger] nodes_view(network@)[i]).id matches NodeType::Sensor(x)
                        ==> final(self).node_pos@[i] == sensor_pos@[x as int])
                &&& forall|i: int|
                    0 <= i < network@.len() ==> ((#[trigger] nodes_view(network@)[i]).id matches NodeType::Output(x)
                        ==> final(self).node_pos@[i] == output_pos@[x as int])
                &&& forall|i: int|
                    0 <= i < network@.len() ==> ((#[trigger] nodes_view(network@)[i]).id is Hidden
                        ==> abs_int(final(self).node_pos@[i].x - center.x) <= JITTER && abs_int(
                            final(self).node_pos@[i].y - center.y,
                        ) <= JITTER)
            },
            old(self).initialized ==> final(self).node_pos@ == spec_step(
                nodes_view(network@),
                sensor_pos@,
                output_pos@,
                old(self).node_pos@,
            ),
    {
        if !self.initialized {
            let seeded = seed_positions(network, sensor_pos, output_pos, center);
            self.node_pos = seeded;
            self.initialized = true;
        } else {
            let relaxed = step(network, sensor_pos, output_pos, &self.node_pos);
            self.node_pos = relaxed;
        }
    }
}

/// With no hidden node in the table, a frame is a pure anchor echo: if
/// every position already sits on its anchor, a step returns the table
/// unchanged, and so do all repeated steps.
pub proof fn lemma_step_anchor_echo(
    nodes: Seq<NodeV>,
    spos: Seq<Vec2M>,
    opos: Seq<Vec2M>,
    npos: Seq<Vec2M>,
)
    requires
        layout_wf(nodes, spos, opos, npos),
        forall|i: int| 0 <= i < nodes.len() ==> !((#[trigger] nodes[i]).id is Hidden),
        forall|i: int|
            0 <= i < nodes.len() ==> ((#[trigger] nodes[i]).id matches NodeType::Sensor(x) ==> npos[i]
                == spos[x as int]),
        forall|i: int|
            0 <= i < nodes.len() ==> ((#[trigger] nodes[i]).id matches NodeType::Output(x) ==> npos[i]
                == opos[x as int]),
    ensures
        spec_step(nodes, spos, opos, npos) == npos,
{
    let stepped = spec_step(nodes, spos, opos, npos);
    assert forall|i: int| 0 <= i < npos.len() implies stepped[i] == npos[i] by {
        match nodes[i].id {
            NodeType::Sensor(x) => {},
            NodeType::Output(x) => {},
            NodeType::Hidden(_) => {
                assert(false);
            },
        }
    }
    assert(stepped =~= npos);
}

} // verus!
