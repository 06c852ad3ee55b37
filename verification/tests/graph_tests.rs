use neatview::graph::{construct_network, IdMap, Node};
use neatview::network::{Gene, NetworkState, NodeType};

fn gene(node_in: usize, node_out: usize, weight_milli: i64, enabled: bool) -> Gene {
    Gene { node_in, node_out, weight_milli, enabled, innovation: 0 }
}

fn state(genes: Vec<Gene>, sensors: usize, outputs: usize) -> NetworkState {
    NetworkState { genes, sensor_nodes: sensors, output_nodes: outputs }
}

#[test]
fn role_classification_regions() {
    let st = state(vec![], 2, 1);
    assert_eq!(NodeType::get(&st, 0), NodeType::Sensor(0));
    assert_eq!(NodeType::get(&st, 1), NodeType::Sensor(1));
    assert_eq!(NodeType::get(&st, 2), NodeType::Output(0));
    assert_eq!(NodeType::get(&st, 3), NodeType::Hidden(3));
    assert_eq!(NodeType::get(&st, 100), NodeType::Hidden(100));
}

#[test]
fn role_index_roundtrip() {
    let st = state(vec![], 3, 2);
    for id in 0..10usize {
        let role = NodeType::get(&st, id);
        assert_eq!(role.index(&st), id);
    }
}

#[test]
fn diamond_path_topology() {
    // genes (0,3), (1,3), (3,2) under two sensors and one output:
    // four internal indices, 3 hidden, 2 the output, edges 0->3, 1->3, 3->2
    let st = state(
        vec![gene(0, 3, 500, true), gene(1, 3, -200, true), gene(3, 2, 900, true)],
        2,
        1,
    );
    let (network, idmap) = construct_network(&st);
    assert_eq!(network.len(), 4);
    assert_eq!(idmap.len(), 4);
    assert_eq!(idmap.get(0), Some(0));
    assert_eq!(idmap.get(3), Some(1));
    assert_eq!(idmap.get(1), Some(2));
    assert_eq!(idmap.get(2), Some(3));
    assert_eq!(network[0].id, NodeType::Sensor(0));
    assert_eq!(network[1].id, NodeType::Hidden(3));
    assert_eq!(network[2].id, NodeType::Sensor(1));
    assert_eq!(network[3].id, NodeType::Output(0));
    assert_eq!(network[0].output, vec![1]);
    assert_eq!(network[0].input, Vec::<usize>::new());
    assert_eq!(network[1].input, vec![0, 2]);
    assert_eq!(network[1].output, vec![3]);
    assert_eq!(network[2].output, vec![1]);
    assert_eq!(network[3].input, vec![1]);
}

#[test]
fn rebuild_is_deterministic() {
    let genes = vec![gene(0, 3, 500, true), gene(1, 3, -200, true), gene(3, 2, 900, true)];
    let st = state(genes.clone(), 2, 1);
    let (n1, m1) = construct_network(&st);
    let (n2, m2) = construct_network(&st);
    assert_eq!(n1, n2);
    assert_eq!(m1, m2);
}

#[test]
fn disabled_genes_introduce_nothing() {
    let enabled_only = state(vec![gene(0, 3, 500, true), gene(3, 2, 900, true)], 2, 1);
    let with_disabled = state(
        vec![
            gene(0, 3, 500, true),
            gene(7, 9, 100, false),
            gene(3, 2, 900, true),
            gene(0, 9, -100, false),
        ],
        2,
        1,
    );
    let (n1, m1) = construct_network(&enabled_only);
    let (n2, m2) = construct_network(&with_disabled);
    assert_eq!(n1, n2);
    assert_eq!(m1, m2);
    assert_eq!(m2.get(7), None);
    assert_eq!(m2.get(9), None);
}

#[test]
fn empty_gene_list_yields_empty_graph() {
    let st = state(vec![], 2, 1);
    let (network, idmap) = construct_network(&st);
    assert_eq!(network, Vec::<Node>::new());
    assert_eq!(idmap.len(), 0);
    assert_eq!(idmap.get(0), None);
}

#[test]
fn duplicate_genes_do_not_reallocate_indices() {
    let st = state(vec![gene(0, 3, 500, true), gene(0, 3, 500, true)], 2, 1);
    let (network, idmap) = construct_network(&st);
    assert_eq!(network.len(), 2);
    // the edge is recorded once per gene occurrence
    assert_eq!(network[0].output, vec![1, 1]);
    assert_eq!(network[1].input, vec![0, 0]);
    assert_eq!(idmap.get(0), Some(0));
    assert_eq!(idmap.get(3), Some(1));
}

#[test]
fn self_referential_gene_builds_one_node() {
    let st = state(vec![gene(5, 5, 100, true)], 2, 1);
    let (network, idmap) = construct_network(&st);
    assert_eq!(network.len(), 1);
    assert_eq!(network[0].id, NodeType::Hidden(5));
    assert_eq!(network[0].input, vec![0]);
    assert_eq!(network[0].output, vec![0]);
    assert_eq!(idmap.get(5), Some(0));
}

#[test]
fn id_map_lookup_matches_pairs() {
    let idmap = IdMap { pairs: vec![(10, 0), (20, 1), (30, 2)] };
    assert_eq!(idmap.get(10), Some(0));
    assert_eq!(idmap.get(20), Some(1));
    assert_eq!(idmap.get(30), Some(2));
    assert_eq!(idmap.get(40), None);
    assert_eq!(idmap.len(), 3);
}

#[test]
fn default_network_shape() {
    let st = NetworkState::default();
    assert_eq!(st.sensor_nodes, 2);
    assert_eq!(st.output_nodes, 1);
    assert_eq!(st.genes.len(), 9);
    let pairs: Vec<(usize, usize)> = st.genes.iter().map(|g| (g.node_in, g.node_out)).collect();
    assert_eq!(
        pairs,
        vec![(0, 3), (1, 3), (3, 2), (0, 4), (1, 4), (4, 2), (0, 5), (1, 5), (5, 2)]
    );
    for g in &st.genes {
        assert!(g.enabled);
        assert_eq!(g.innovation, 0);
        assert!(-1000 <= g.weight_milli && g.weight_milli <= 1000);
    }
    let (network, idmap) = construct_network(&st);
    assert_eq!(network.len(), 6);
    assert_eq!(idmap.len(), 6);
}
