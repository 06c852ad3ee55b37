use neatview::graph::construct_network;
use neatview::layout::{
    isqrt64, repulsion, spring_force, step, LayoutState, Vec2M, JITTER,
};
use neatview::network::{Gene, NetworkState, NodeType};

fn gene(node_in: usize, node_out: usize, weight_milli: i64, enabled: bool) -> Gene {
    Gene { node_in, node_out, weight_milli, enabled, innovation: 0 }
}

fn v(x: i64, y: i64) -> Vec2M {
    Vec2M { x, y }
}

#[test]
fn isqrt_small_values() {
    assert_eq!(isqrt64(0), 0);
    assert_eq!(isqrt64(1), 1);
    assert_eq!(isqrt64(3), 1);
    assert_eq!(isqrt64(4), 2);
    assert_eq!(isqrt64(15), 3);
    assert_eq!(isqrt64(16), 4);
    assert_eq!(isqrt64(1_000_000), 1000);
    assert_eq!(isqrt64(8_000_000_000_000_000_000), 2_828_427_124);
}

#[test]
fn spring_force_along_axis() {
    // 100 units apart, 50 over rest length: pull of 10 units toward b
    let f = spring_force(v(0, 0), v(100_000, 0));
    assert_eq!(f, v(10_000, 0));
    // and symmetric in the other direction
    let f = spring_force(v(100_000, 0), v(0, 0));
    assert_eq!(f, v(-10_000, 0));
}

#[test]
fn spring_force_zero_distance_is_guarded() {
    let f = spring_force(v(42, 7), v(42, 7));
    assert_eq!(f, v(0, 0));
}

#[test]
fn repulsion_pushes_apart_inside_rest_length() {
    // 100 units apart, 50 under the 150-unit rest length: push of 50
    // milli-units away from b
    let f = repulsion(v(0, 0), v(100_000, 0));
    assert_eq!(f, v(-50, 0));
}

#[test]
fn seed_puts_anchored_roles_on_anchors() {
    let st = NetworkState {
        genes: vec![gene(0, 3, 500, true), gene(1, 3, -200, true), gene(3, 2, 900, true)],
        sensor_nodes: 2,
        output_nodes: 1,
    };
    let (network, _) = construct_network(&st);
    let sensor_pos = vec![v(30_000, 100_000), v(30_000, 200_000)];
    let output_pos = vec![v(370_000, 150_000)];
    let center = v(200_000, 150_000);
    let mut layout = LayoutState::new();
    assert!(!layout.initialized);
    layout.advance(&network, &sensor_pos, &output_pos, center);
    assert!(layout.initialized);
    assert_eq!(layout.node_pos.len(), 4);
    for (i, node) in network.iter().enumerate() {
        match node.id {
            NodeType::Sensor(x) => assert_eq!(layout.node_pos[i], sensor_pos[x]),
            NodeType::Output(x) => assert_eq!(layout.node_pos[i], output_pos[x]),
            NodeType::Hidden(_) => {
                let p = layout.node_pos[i];
                assert!((p.x - center.x).abs() <= JITTER);
                assert!((p.y - center.y).abs() <= JITTER);
            }
        }
    }
}

#[test]
fn step_without_hidden_nodes_echoes_anchors() {
    let st = NetworkState {
        genes: vec![gene(0, 2, 500, true), gene(1, 2, -500, true)],
        sensor_nodes: 2,
        output_nodes: 1,
    };
    let (network, _) = construct_network(&st);
    let sensor_pos = vec![v(30_000, 100_000), v(30_000, 200_000)];
    let output_pos = vec![v(370_000, 150_000)];
    let center = v(200_000, 150_000);
    let mut layout = LayoutState::new();
    layout.advance(&network, &sensor_pos, &output_pos, center);
    let seeded = layout.node_pos.clone();
    for _ in 0..5 {
        layout.advance(&network, &sensor_pos, &output_pos, center);
        assert_eq!(layout.node_pos, seeded);
    }
}

#[test]
fn self_referential_hidden_node_does_not_crash() {
    // one hidden node wired to itself: the zero-distance self terms are
    // skipped, not divided
    let st = NetworkState {
        genes: vec![gene(5, 5, 100, true)],
        sensor_nodes: 2,
        output_nodes: 1,
    };
    let (network, _) = construct_network(&st);
    let sensor_pos = vec![v(30_000, 100_000), v(30_000, 200_000)];
    let output_pos = vec![v(370_000, 150_000)];
    let center = v(200_000, 150_000);
    let mut layout = LayoutState::new();
    layout.advance(&network, &sensor_pos, &output_pos, center);
    layout.advance(&network, &sensor_pos, &output_pos, center);
    layout.advance(&network, &sensor_pos, &output_pos, center);
    assert_eq!(layout.node_pos.len(), 1);
}

#[test]
fn isolated_hidden_node_feels_no_net_force() {
    // a single hidden node with a self-loop: springs to itself and
    // repulsion from itself are all zero, so its position is a fixed point
    let st = NetworkState {
        genes: vec![gene(7, 7, 0, true)],
        sensor_nodes: 0,
        output_nodes: 0,
    };
    let (network, _) = construct_network(&st);
    let prev = vec![v(123_456, -98_765)];
    let next = step(&network, &vec![], &vec![], &prev);
    assert_eq!(next, prev);
}

#[test]
fn step_relaxes_hidden_node_toward_neighbors() {
    // hidden node 3 sits between the two sensors and the output; a step
    // moves it by the documented truncating fixed-point force sums
    let st = NetworkState {
        genes: vec![gene(0, 3, 500, true), gene(1, 3, -200, true), gene(3, 2, 900, true)],
        sensor_nodes: 2,
        output_nodes: 1,
    };
    let (network, _) = construct_network(&st);
    let sensor_pos = vec![v(0, 0), v(0, 200_000)];
    let output_pos = vec![v(400_000, 100_000)];
    // the hidden node (internal index 1) exactly at the centroid column
    let prev = vec![sensor_pos[0], v(200_000, 100_000), sensor_pos[1], output_pos[0]];
    let next = step(&network, &sensor_pos, &output_pos, &prev);
    assert_eq!(next[0], sensor_pos[0]);
    assert_eq!(next[2], sensor_pos[1]);
    assert_eq!(next[3], output_pos[0]);
    // anchors pull it: distance to each anchor is sqrt(200000^2 + 100000^2)
    // = 223606 milli-units, 173606 over rest, divided by 200 * 223606;
    // the two sensor springs and the output spring each contribute, the
    // repulsion terms push back from all three anchors
    assert_ne!(next[1], prev[1]);
    // the configuration is symmetric about y = 100000, so the hidden node
    // stays on that axis
    assert_eq!(next[1].y, 100_000);
}
