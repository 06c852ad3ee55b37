//! The presentation adapter: rank-to-color interpolation, weight-to-width
//! mapping, and the circle and line-segment primitives the external
//! renderer draws. Color channels are ten-thousandths (hue included, so
//! 120 degrees is 1,200,000); widths and radii are milli-units.

use vstd::prelude::*;
use crate::graph::{IdMap, id_map_at, id_map_dense, id_map_distinct, id_map_has};
use crate::network::Gene;
use crate::layout::{Vec2M, abs_int, in_bounds};
use crate::network::WEIGHT_CAP;

verus! {

/// Hue of the first endpoint color, in ten-thousandths of a degree.
pub const COLOR_START_H: i64 = 0;

/// Saturation of the first endpoint color (0.9357).
pub const COLOR_START_S: i64 = 9_357;

/// Lightness of the first endpoint color (0.5118).
pub const COLOR_START_L: i64 = 5_118;

/// Hue of the second endpoint color (120 degrees).
pub const COLOR_END_H: i64 = 1_200_000;

/// Saturation of the second endpoint color (0.9048).
pub const COLOR_END_S: i64 = 9_048;

/// Lightness of the second endpoint color (0.5059).
pub const COLOR_END_L: i64 = 5_059;

/// One whole in the normalized rank scale: ranks run 0 ..= 10,000.
pub const RANK_UNIT: i64 = 10_000;

/// Narrowest edge stroke, in milli-units (4.0 units).
pub const WIDTH_MIN: i64 = 4_000;

/// Widest edge stroke, in milli-units (7.0 units).
pub const WIDTH_MAX: i64 = 7_000;

/// Radius of a node circle, in milli-units (half a 30-unit node).
pub const NODE_RADIUS: i64 = 15_000;

/// Outline width of a node circle, in milli-units; the outline is black.
pub const NODE_STROKE: i64 = 1_500;

/// A color in hue-saturation-lightness space, each channel in
/// ten-thousandths.
#[derive(Clone, Copy, Debug, PartialEq, Eq, Structural)]
pub struct Hsl {
    pub h_tm: i64,
    pub s_tm: i64,
    pub l_tm: i64,
}

/// A filled node circle for the external renderer.
#[derive(Clone, Copy, Debug, PartialEq, Eq, Structural)]
pub struct Circle {
    pub center: Vec2M,
    pub radius: i64,
    pub fill: Hsl,
    pub stroke_width: i64,
}

/// A weighted connection drawn as a line segment.
#[derive(Clone, Copy, Debug, PartialEq, Eq, Structural)]
pub struct Segment {
    pub a: Vec2M,
    pub b: Vec2M,
    pub width: i64,
    pub color: Hsl,
}

/// Linear interpolation from `a` to `b` at `t` ten-thousandths, with the
/// magnitude divided first so both directions truncate alike.
pub open spec fn spec_lerp(a: int, b: int, t: int) -> int {
    if b >= a {
        a + ((b - a) * t) / (RANK_UNIT as int)
    } else {
        a - ((a - b) * t) / (RANK_UNIT as int)
    }
}

/// The color of normalized rank `t`: each channel interpolated linearly
/// between the two fixed endpoint colors.
pub open spec fn spec_color(t: int) -> Hsl {
    Hsl {
        h_tm: spec_lerp(COLOR_START_H as int, COLOR_END_H as int, t) as i64,
        s_tm: spec_lerp(COLOR_START_S as int, COLOR_END_S as int, t) as i64,
        l_tm: spec_lerp(COLOR_START_L as int, COLOR_END_L as int, t) as i64,
    }
}

fn lerp_tm(a: i64, b: i64, t: i64) -> (r: i64)
    requires
        0 <= t <= RANK_UNIT,
        -2_000_000 <= a <= 2_000_000,
        -2_000_000 <= b <= 2_000_000,
    ensures
        r as int == spec_lerp(a as int, b as int, t as int),
{
    proof {
        assert(0 <= abs_int(b as int - a as int) * t as int <= 40_000_000_000) by (nonlinear_arith)
            requires
                0 <= abs_int(b as int - a as int) <= 4_000_000,
                0 <= t as int <= 10_000,
        ;
    }
    if b >= a {
        a + ((b - a) * t) / RANK_UNIT
    } else {
        a - ((a - b) * t) / RANK_UNIT
    }
}

/// The color of a node or gene from its normalized rank among its peers.
/// A pure function of the rank alone; exact at both endpoints.
pub fn node_color(t_tm: i64) -> (r: Hsl)
    requires
        0 <= t_tm <= RANK_UNIT,
    ensures
        r == spec_color(t_tm as int),
{
    Hsl {
        h_tm: lerp_tm(COLOR_START_H, COLOR_END_H, t_tm),
        s_tm: lerp_tm(COLOR_START_S, COLOR_END_S, t_tm),
        l_tm: lerp_tm(COLOR_START_L, COLOR_END_L, t_tm),
    }
}

/// Stroke width of a gene: linear in the weight magnitude, `WIDTH_MIN` at
/// magnitude 0 and `WIDTH_MAX` at magnitude 1000 (one whole unit); the
/// sign of the weight is not encoded.
pub open spec fn spec_edge_width(w: int) -> int {
    WIDTH_MIN + ((WIDTH_MAX - WIDTH_MIN) * abs_int(w)) / 1000
}

/// The stroke width of a gene of weight `weight_milli`.
pub fn edge_width(weight_milli: i64) -> (r: i64)
    requires
        -WEIGHT_CAP <= weight_milli <= WEIGHT_CAP,
    ensures
        r as int == spec_edge_width(weight_milli as int),
        r >= WIDTH_MIN,
{
    let wa: i64 = if weight_milli >= 0 {
        weight_milli
    } else {
        -weight_milli
    };
    proof {
        assert(0 <= 3000 * wa as int <= 3_000_000_000_000) by (nonlinear_arith)
            requires
                0 <= wa as int <= 1_000_000_000,
        ;
    }
    WIDTH_MIN + ((WIDTH_MAX - WIDTH_MIN) * wa) / 1000
}

/// The width mapping is exact at the documented bounds: magnitude 0 gives
/// `WIDTH_MIN` and magnitude 1000 (one whole unit) gives `WIDTH_MAX`,
/// whatever the sign.
pub proof fn lemma_edge_width_endpoints()
    ensures
        spec_edge_width(0) == WIDTH_MIN,
        spec_edge_width(1000) == WIDTH_MAX,
        spec_edge_width(-1000) == WIDTH_MAX,
{
}

/// The width mapping is monotonic in the weight magnitude.
pub proof fn lemma_edge_width_monotonic(w1: int, w2: int)
    requires
        abs_int(w1) <= abs_int(w2),
    ensures
        spec_edge_width(w1) <= spec_edge_width(w2),
{
    let d = (WIDTH_MAX - WIDTH_MIN) as int;
    assert(d * abs_int(w1) <= d * abs_int(w2)) by (nonlinear_arith)
        requires
            0 < d,
            abs_int(w1) <= abs_int(w2),
    ;
    vstd::arithmetic::div_mod::lemma_div_is_ordered(d * abs_int(w1), d * abs_int(w2), 1000);
}

/// The normalized rank of item `i` among `n`, in ten-thousandths.
pub open spec fn spec_rank_tm(i: int, n: int) -> int {
    (i * (RANK_UNIT as int)) / n
}

fn rank_tm(i: usize, n: usize) -> (r: i64)
    requires
        i < n,
    ensures
        r as int == spec_rank_tm(i as int, n as int),
        0 <= r < RANK_UNIT,
{
    let t: u128 = ((i as u128) * (RANK_UNIT as u128)) / (n as u128);
    proof {
        assert(i as int * (RANK_UNIT as int) < n as int * (RANK_UNIT as int)) by (nonlinear_arith)
            requires
                0 <= i as int,
                (i as int) < (n as int),
        ;
        vstd::arithmetic::div_mod::lemma_multiply_divide_lt(
            i as int * (RANK_UNIT as int),
            n as int,
            RANK_UNIT as int,
        );
        assert(0 <= t as int);
    }
    t as i64
}

/// The circle of node `i`: the node's position offset by the caller's
/// origin, colored by the node's rank among all nodes.
pub open spec fn spec_circle(positions: Seq<Vec2M>, origin: Vec2M, i: int) -> Circle {
    Circle {
        center: Vec2M {
            x: (origin.x + positions[i].x) as i64,
            y: (origin.y + positions[i].y) as i64,
        },
        radius: NODE_RADIUS,
        fill: spec_color(spec_rank_tm(i, positions.len() as int)),
        stroke_width: NODE_STROKE,
    }
}

/// The segment of gene `i` of `n`, between its endpoints' positions.
pub open spec fn spec_segment(
    g: Gene,
    i: int,
    n: int,
    m: Seq<(usize, usize)>,
    positions: Seq<Vec2M>,
    origin: Vec2M,
) -> Segment {
    let ia = id_map_at(m, g.node_in) as int;
    let ib = id_map_at(m, g.node_out) as int;
    Segment {
        a: Vec2M { x: (origin.x + positions[ia].x) as i64, y: (origin.y + positions[ia].y) as i64 },
        b: Vec2M { x: (origin.x + positions[ib].x) as i64, y: (origin.y + positions[ib].y) as i64 },
        width: spec_edge_width(g.weight_milli as int) as i64,
        color: spec_color(spec_rank_tm(i, n)),
    }
}

/// The segments of the first `k` genes: a gene yields one exactly when
/// both its endpoints have an internal index, so a gene over ids that no
/// enabled gene introduced is skipped rather than looked up blindly.
pub open spec fn spec_segments(
    genes: Seq<Gene>,
    k: int,
    m: Seq<(usize, usize)>,
    positions: Seq<Vec2M>,
    origin: Vec2M,
) -> Seq<Segment>
    decreases k,
{
    if k <= 0 {
        Seq::empty()
    } else {
        let prev = spec_segments(genes, k - 1, m, positions, origin);
        let g = genes[k - 1];
        if id_map_has(m, g.node_in) && id_map_has(m, g.node_out) {
            prev.push(spec_segment(g, k - 1, genes.len() as int, m, positions, origin))
        } else {
            prev
        }
    }
}

/// Map the node table's positions and the gene list to display
/// primitives: one circle per node, one segment per gene whose endpoints
/// are in the id map, all in caller-canvas coordinates.
pub fn render_primitives(
    positions: &Vec<Vec2M>,
    genes: &Vec<Gene>,
    idm: &IdMap,
    origin: Vec2M,
) -> (r: (Vec<Circle>, Vec<Segment>))
    requires
        forall|k: int| 0 <= k < positions@.len() ==> in_bounds(#[trigger] positions@[k]),
        in_bounds(origin),
        id_map_distinct(idm.pairs@),
        id_map_dense(idm.pairs@),
        idm.pairs@.len() == positions@.len(),
        forall|k: int|
            0 <= k < genes@.len() ==> -WEIGHT_CAP <= (#[trigger] genes@[k]).weight_milli
                <= WEIGHT_CAP,
    ensures
        r.0@.len() == positions@.len(),
        forall|i: int| 0 <= i < positions@.len() ==> #[trigger] r.0@[i] == spec_circle(positions@, origin, i),
        r.1@ == spec_segments(genes@, genes@.len() as int, idm.pairs@, positions@, origin),
{
    let n = positions.len();
    let mut circles: Vec<Circle> = Vec::new();
    let mut i: usize = 0;
    while i < n
        invariant
            forall|k: int| 0 <= k < positions@.len() ==> in_bounds(#[trigger] positions@[k]),
            in_bounds(origin),
            n == positions@.len(),
            0 <= i <= n,
            circles@.len() == i,
            forall|j: int|
                0 <= j < i ==> #[trigger] circles@[j] == spec_circle(positions@, origin, j),
        decreases n - i,
    {
        let p = positions[i];
        let t = rank_tm(i, n);
        circles.push(
            Circle {
                center: Vec2M { x: origin.x + p.x, y: origin.y + p.y },
                radius: NODE_RADIUS,
                fill: node_color(t),
                stroke_width: NODE_STROKE,
            },
        );
        i += 1;
    }
    let n_genes = genes.len();
    let mut segments: Vec<Segment> = Vec::new();
    let mut gi: usize = 0;
    while gi < n_genes
        invariant
            forall|k: int| 0 <= k < positions@.len() ==> in_bounds(#[trigger] positions@[k]),
            in_bounds(origin),
            id_map_distinct(idm.pairs@),
            id_map_dense(idm.pairs@),
            idm.pairs@.len() == positions@.len(),
            forall|k: int|
                0 <= k < genes@.len() ==> -WEIGHT_CAP <= (#[trigger] genes@[k]).weight_milli
                    <= WEIGHT_CAP,
            n_genes == genes@.len(),
            0 <= gi <= n_genes,
            segments@ == spec_segments(genes@, gi as int, idm.pairs@, positions@, origin),
        decreases n_genes - gi,
    {
        let g = genes[gi];
        let a_ix = idm.get(g.node_in);
        let b_ix = idm.get(g.node_out);
        match (a_ix, b_ix) {
            (Some(ia), Some(ib)) => {
                proof {
                    let ka = choose|k: int|
                        0 <= k < idm.pairs@.len() && (#[trigger] idm.pairs@[k]).0 == g.node_in;
                    let kb = choose|k: int|
                        0 <= k < idm.pairs@.len() && (#[trigger] idm.pairs@[k]).0 == g.node_out;
                    assert(idm.pairs@[ka].1 == ka);
                    assert(idm.pairs@[kb].1 == kb);
                }
                let pa = positions[ia];
                let pb = positions[ib];
                let t = rank_tm(gi, n_genes);
                segments.push(
                    Segment {
                        a: Vec2M { x: origin.x + pa.x, y: origin.y + pa.y },
                        b: Vec2M { x: origin.x + pb.x, y: origin.y + pb.y },
                        width: edge_width(g.weight_milli),
                        color: node_color(t),
                    },
                );
            },
            _ => {},
        }
        gi += 1;
    }
    (circles, segments)
}

} // verus!
