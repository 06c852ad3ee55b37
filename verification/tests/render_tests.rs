use neatview::graph::construct_network;
use neatview::layout::Vec2M;
use neatview::network::{Gene, NetworkState};
use neatview::render::{
    edge_width, node_color, render_primitives, Hsl, NODE_RADIUS, NODE_STROKE, WIDTH_MAX,
    WIDTH_MIN,
};

fn gene(node_in: usize, node_out: usize, weight_milli: i64, enabled: bool) -> Gene {
    Gene { node_in, node_out, weight_milli, enabled, innovation: 0 }
}

fn v(x: i64, y: i64) -> Vec2M {
    Vec2M { x, y }
}

#[test]
fn edge_width_bounds_are_exact() {
    // weight magnitude 0 maps to exactly 4.0 units, magnitude 1 to 7.0
    assert_eq!(edge_width(0) as f64 / 1000.0, 4.0);
    assert_eq!(edge_width(1000) as f64 / 1000.0, 7.0);
    assert_eq!(edge_width(-1000) as f64 / 1000.0, 7.0);
    assert_eq!(edge_width(0), WIDTH_MIN);
    assert_eq!(edge_width(1000), WIDTH_MAX);
}

#[test]
fn edge_width_is_monotonic_in_magnitude() {
    let mut last = edge_width(0);
    for w in [100, 250, 500, 750, 999, 1000] {
        let here = edge_width(w);
        assert!(here >= last);
        assert_eq!(here, edge_width(-w));
        last = here;
    }
    assert_eq!(edge_width(500), 5_500);
}

#[test]
fn node_color_endpoints() {
    assert_eq!(node_color(0), Hsl { h_tm: 0, s_tm: 9_357, l_tm: 5_118 });
    assert_eq!(node_color(10_000), Hsl { h_tm: 1_200_000, s_tm: 9_048, l_tm: 5_059 });
}

#[test]
fn node_color_midpoint() {
    let mid = node_color(5_000);
    assert_eq!(mid.h_tm, 600_000);
    // saturation and lightness interpolate downward, truncating
    assert_eq!(mid.s_tm, 9_357 - 154);
    assert_eq!(mid.l_tm, 5_118 - 29);
}

#[test]
fn primitives_cover_nodes_and_mapped_genes() {
    let st = NetworkState {
        genes: vec![
            gene(0, 3, 500, true),
            gene(3, 2, 1000, true),
            gene(7, 9, 200, false), // endpoints never allocated: no segment
        ],
        sensor_nodes: 2,
        output_nodes: 1,
    };
    let (network, idmap) = construct_network(&st);
    assert_eq!(network.len(), 3);
    let positions = vec![v(0, 0), v(100_000, 50_000), v(200_000, 0)];
    let origin = v(1_000, 2_000);
    let (circles, segments) = render_primitives(&positions, &st.genes, &idmap, origin);
    assert_eq!(circles.len(), 3);
    assert_eq!(segments.len(), 2);
    // circles carry the offset centers and the fixed radius and outline
    assert_eq!(circles[0].center, v(1_000, 2_000));
    assert_eq!(circles[1].center, v(101_000, 52_000));
    assert_eq!(circles[0].radius, NODE_RADIUS);
    assert_eq!(circles[0].stroke_width, NODE_STROKE);
    // node fill colors follow the rank among all nodes
    assert_eq!(circles[0].fill, node_color(0));
    assert_eq!(circles[1].fill, node_color(3_333));
    assert_eq!(circles[2].fill, node_color(6_666));
    // segments join the mapped endpoints, offset by the origin
    assert_eq!(segments[0].a, v(1_000, 2_000));
    assert_eq!(segments[0].b, v(101_000, 52_000));
    assert_eq!(segments[1].a, v(101_000, 52_000));
    assert_eq!(segments[1].b, v(201_000, 2_000));
    // widths follow the weight magnitudes, colors the gene ranks
    assert_eq!(segments[0].width, edge_width(500));
    assert_eq!(segments[1].width, edge_width(1000));
    assert_eq!(segments[0].color, node_color(0));
    assert_eq!(segments[1].color, node_color(3_333));
}

#[test]
fn primitives_of_empty_graph_are_empty() {
    let (circles, segments) =
        render_primitives(&vec![], &vec![], &neatview::graph::IdMap { pairs: vec![] }, v(0, 0));
    assert!(circles.is_empty());
    assert!(segments.is_empty());
}
