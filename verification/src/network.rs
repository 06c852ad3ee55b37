//! Connection genes, the fixed role configuration, and the role of a node.

use vstd::prelude::*;

verus! {

/// Largest weight magnitude (in milli-units) the core accepts; keeps the
/// width computation inside `i64`.
pub const WEIGHT_CAP: i64 = 1_000_000_000;

/// A weighted directed connection between two externally assigned node ids.
/// The weight is carried in thousandths of a unit; `enabled == false`
/// excludes the gene from graph construction.
#[derive(Clone, Copy, Debug, PartialEq, Eq)]
pub struct Gene {
    pub node_in: usize,
    pub node_out: usize,
    pub weight_milli: i64,
    pub enabled: bool,
    pub innovation: u32,
}

/// The gene list together with the fixed role configuration: the first
/// `sensor_nodes` ids are sensors, the next `output_nodes` ids are outputs,
/// every other id is hidden.
pub struct NetworkState {
    pub genes: Vec<Gene>,
    pub sensor_nodes: usize,
    pub output_nodes: usize,
}

impl NetworkState {
    /// The two role counts together fit the id space.
    pub open spec fn wf(&self) -> bool {
        self.sensor_nodes + self.output_nodes <= usize::MAX
    }
}

/// The raw id pairs of the demonstration network: two sensors (0, 1) and
/// one output (2), each sensor wired through three hidden nodes (3, 4, 5).
pub open spec fn demo_pairs() -> Seq<(usize, usize)> {
    seq![(0usize, 3usize), (1, 3), (3, 2), (0, 4), (1, 4), (4, 2), (0, 5), (1, 5), (5, 2)]
}

impl Default for NetworkState {
    /// The demonstration network: nine enabled genes wiring two sensors
    /// through three hidden nodes to one output, each with a fresh random
    /// weight in [-1, 1].
    fn default() -> (r: Self)
        ensures
            r.sensor_nodes == 2,
            r.output_nodes == 1,
            r.genes@.len() == demo_pairs().len(),
            forall|i: int|
                0 <= i < r.genes@.len() ==> (#[trigger] r.genes@[i]).node_in == demo_pairs()[i].0
                    && r.genes@[i].node_out == demo_pairs()[i].1 && r.genes@[i].enabled
                    && r.genes@[i].innovation == 0 && -1000 <= r.genes@[i].weight_milli <= 1000,
    {
        let pairs: [(usize, usize); 9] = [
            (0, 3),
            (1, 3),
            (3, 2),
            (0, 4),
            (1, 4),
            (4, 2),
            (0, 5),
            (1, 5),
            (5, 2),
        ];
        let mut genes: Vec<Gene> = Vec::new();
        let mut i: usize = 0;
        while i < 9
            invariant
                0 <= i <= 9,
                genes@.len() == i,
                pairs@ =~= demo_pairs(),
                forall|j: int|
                    0 <= j < i ==> (#[trigger] genes@[j]).node_in == demo_pairs()[j].0
                        && genes@[j].node_out == demo_pairs()[j].1 && genes@[j].enabled
                        && genes@[j].innovation == 0 && -1000 <= genes@[j].weight_milli <= 1000,
            decreases 9 - i,
        {
            let (node_in, node_out) = pairs[i];
            genes.push(
                Gene {
                    node_in,
                    node_out,
                    weight_milli: crate::rng::random_in_range(-1000, 1000),
                    enabled: true,
                    innovation: 0,
                },
            );
            i += 1;
        }
        NetworkState { genes, sensor_nodes: 2, output_nodes: 1 }
    }
}

/// The role of a node: sensor, output, or hidden, each with its
/// role-relative ordinal (hidden keeps the raw id as its ordinal).
#[derive(Clone, Copy, Debug, PartialEq, Eq, Structural)]
pub enum NodeType {
    Sensor(usize),
    Output(usize),
    Hidden(usize),
}

/// Role of `id` under the fixed counts: ids below `sensors` are sensors,
/// the next `outputs` ids are outputs, everything else is hidden.
pub open spec fn spec_role(id: usize, sensors: usize, outputs: usize) -> NodeType {
    if id < sensors {
        NodeType::Sensor(id)
    } else if id - sensors < outputs {
        NodeType::Output((id - sensors) as usize)
    } else {
        NodeType::Hidden(id)
    }
}

/// The raw id a role stands for, under the fixed counts.
pub open spec fn spec_role_index(role: NodeType, sensors: usize) -> int {
    match role {
        NodeType::Sensor(n) => n as int,
        NodeType::Output(n) => sensors + n,
        NodeType::Hidden(n) => n as int,
    }
}

impl Default for NodeType {
    /// The placeholder role of a blank node: the first sensor.
    fn default() -> (r: Self)
        ensures
            r == NodeType::Sensor(0usize),
    {
        Self::Sensor(0)
    }
}

impl NodeType {
    /// Classify `id` under the counts held by `state`. Total and
    /// deterministic: the result depends on the id and the two counts alone.
    pub fn get(state: &NetworkState, id: usize) -> (r: Self)
        ensures
            r == spec_role(id, state.sensor_nodes, state.output_nodes),
    {
        let mut cpy = id;
        if cpy < state.sensor_nodes {
            return Self::Sensor(cpy);
        }
        cpy -= state.sensor_nodes;
        if cpy < state.output_nodes {
            return Self::Output(cpy);
        }
        Self::Hidden(id)
    }

    /// Recover the raw id from a role.
    pub fn index(self, state: &NetworkState) -> (r: usize)
        requires
            state.wf(),
            self matches NodeType::Output(n) ==> n < state.output_nodes,
        ensures
            r == spec_role_index(self, state.sensor_nodes),
    {
        match self {
            NodeType::Sensor(n) => n,
            NodeType::Output(n) => state.sensor_nodes + n,
            NodeType::Hidden(n) => n,
        }
    }
}

/// Classification is the inverse of `index`: recovering the raw id from the
/// role of `id` gives back `id` itself, for any counts that fit the id space.
pub proof fn lemma_role_index_roundtrip(id: usize, sensors: usize, outputs: usize)
    requires
        sensors + outputs <= usize::MAX,
    ensures
        spec_role_index(spec_role(id, sensors, outputs), sensors) == id,
{
}

} // verus!
