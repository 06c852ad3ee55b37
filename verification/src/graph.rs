//! Graph construction: scan the enabled genes in list order, allocate a
//! dense internal index for each id on first sight, and record the edges.

use vstd::prelude::*;
use crate::network::{Gene, NetworkState, NodeType, spec_role};

verus! {

/// A node of the internal table: edge lists hold internal indices, the
/// role is derived from the raw id at allocation time.
#[derive(Debug, Clone, PartialEq, Eq)]
pub struct Node {
    pub input: Vec<usize>,
    pub output: Vec<usize>,
    pub id: NodeType,
}

/// Mathematical image of a `Node`.
pub struct NodeV {
    pub input: Seq<usize>,
    pub output: Seq<usize>,
    pub id: NodeType,
}

impl View for Node {
    type V = NodeV;

    open spec fn view(&self) -> NodeV {
        NodeV { input: self.input@, output: self.output@, id: self.id }
    }
}

/// The node table as a sequence of node images.
pub open spec fn nodes_view(s: Seq<Node>) -> Seq<NodeV> {
    s.map_values(|n: Node| n@)
}

/// Map from raw id to internal index, kept as the list of `(id, index)`
/// pairs in allocation order, so pair number `k` holds index `k`.
#[derive(Debug, Clone, PartialEq, Eq)]
pub struct IdMap {
    pub pairs: Vec<(usize, usize)>,
}

/// No raw id occurs twice.
pub open spec fn id_map_distinct(m: Seq<(usize, usize)>) -> bool {
    forall|j: int, k: int|
        0 <= j < m.len() && 0 <= k < m.len() && j != k ==> m[j].0 != m[k].0
}

/// Pair number `k` carries internal index `k`: the index set is dense.
pub open spec fn id_map_dense(m: Seq<(usize, usize)>) -> bool {
    forall|k: int| 0 <= k < m.len() ==> (#[trigger] m[k]).1 == k
}

/// Some pair carries raw id `id`.
pub open spec fn id_map_has(m: Seq<(usize, usize)>, id: usize) -> bool {
    exists|k: int| 0 <= k < m.len() && (#[trigger] m[k]).0 == id
}

/// The internal index recorded for raw id `id`.
pub open spec fn id_map_at(m: Seq<(usize, usize)>, id: usize) -> usize {
    m[choose|k: int| 0 <= k < m.len() && (#[trigger] m[k]).0 == id].1
}

/// With distinct ids, the pair at `k` settles lookup of its id.
pub proof fn lemma_id_map_at_key(m: Seq<(usize, usize)>, k: int)
    requires
        id_map_distinct(m),
        0 <= k < m.len(),
    ensures
        id_map_has(m, m[k].0),
        id_map_at(m, m[k].0) == m[k].1,
{
    assert(id_map_has(m, m[k].0));
    let j = choose|j: int| 0 <= j < m.len() && (#[trigger] m[j]).0 == m[k].0;
    assert(j == k);
}

/// Appending a fresh pair does not move the index of an id already there.
pub proof fn lemma_id_map_at_push(m: Seq<(usize, usize)>, p: (usize, usize), id: usize)
    requires
        id_map_distinct(m.push(p)),
        id_map_has(m, id),
    ensures
        id_map_has(m.push(p), id),
        id_map_at(m.push(p), id) == id_map_at(m, id),
{
    let k = choose|k: int| 0 <= k < m.len() && (#[trigger] m[k]).0 == id;
    assert forall|j: int, l: int|
        0 <= j < m.len() && 0 <= l < m.len() && j != l implies m[j].0 != m[l].0 by {
        assert(m.push(p)[j] == m[j]);
        assert(m.push(p)[l] == m[l]);
    }
    lemma_id_map_at_key(m, k);
    assert(m.push(p)[k].0 == id);
    lemma_id_map_at_key(m.push(p), k);
}

impl IdMap {
    /// Distinct ids, dense indices.
    pub open spec fn wf(&self) -> bool {
        id_map_distinct(self.pairs@) && id_map_dense(self.pairs@)
    }

    /// The number of mapped ids.
    pub fn len(&self) -> (r: usize)
        ensures
            r == self.pairs@.len(),
    {
        self.pairs.len()
    }

    /// Look the internal index of `id` up; `None` exactly when `id` was
    /// never allocated.
    pub fn get(&self, id: usize) -> (r: Option<usize>)
        requires
            self.wf(),
        ensures
            match r {
                Some(ix) => id_map_has(self.pairs@, id) && ix == id_map_at(self.pairs@, id),
                None => !id_map_has(self.pairs@, id),
            },
    {
        let n = self.pairs.len();
        let mut j: usize = 0;
        while j < n
            invariant
                n == self.pairs@.len(),
                0 <= j <= n,
                self.wf(),
                forall|i: int| 0 <= i < j ==> (#[trigger] self.pairs@[i]).0 != id,
            decreases n - j,
        {
            if self.pairs[j].0 == id {
                proof {
                    lemma_id_map_at_key(self.pairs@, j as int);
                }
                return Some(self.pairs[j].1);
            }
            j += 1;
        }
        None
    }
}

/// State threaded through the scan: the node images and the id map pairs.
pub struct BuildState {
    pub nodes: Seq<NodeV>,
    pub map: Seq<(usize, usize)>,
}

/// The empty build state.
pub open spec fn build_empty() -> BuildState {
    BuildState { nodes: Seq::empty(), map: Seq::empty() }
}

/// Allocate an index for `id` if it has none: first occurrence wins the
/// next sequential index.
pub open spec fn add_id(st: BuildState, id: usize, sensors: usize, outputs: usize) -> BuildState {
    if id_map_has(st.map, id) {
        st
    } else {
        BuildState {
            nodes: st.nodes.push(
                NodeV { input: Seq::empty(), output: Seq::empty(), id: spec_role(id, sensors, outputs) },
            ),
            map: st.map.push((id, st.nodes.len() as usize)),
        }
    }
}

/// Record the edge `i_in -> i_out` in the two adjacency lists.
pub open spec fn add_edge(nodes: Seq<NodeV>, i_in: int, i_out: int) -> Seq<NodeV> {
    let n1 = nodes[i_in];
    let step1 = nodes.update(i_in, NodeV { input: n1.input, output: n1.output.push(i_out as usize), id: n1.id });
    let n2 = step1[i_out];
    step1.update(i_out, NodeV { input: n2.input.push(i_in as usize), output: n2.output, id: n2.id })
}

/// Process one gene: a disabled gene changes nothing; an enabled one
/// allocates its endpoints as needed and records the edge.
pub open spec fn gene_step(st: BuildState, g: Gene, sensors: usize, outputs: usize) -> BuildState {
    if !g.enabled {
        st
    } else {
        let st2 = add_id(add_id(st, g.node_in, sensors, outputs), g.node_out, sensors, outputs);
        let i_in = id_map_at(st2.map, g.node_in);
        let i_out = id_map_at(st2.map, g.node_out);
        BuildState { nodes: add_edge(st2.nodes, i_in as int, i_out as int), map: st2.map }
    }
}

/// The whole scan, left to right over the gene list.
pub open spec fn build_spec(genes: Seq<Gene>, sensors: usize, outputs: usize) -> BuildState
    decreases genes.len(),
{
    if genes.len() == 0 {
        build_empty()
    } else {
        gene_step(build_spec(genes.drop_last(), sensors, outputs), genes.last(), sensors, outputs)
    }
}

/// Well-formedness of a build state: distinct ids, dense indices, one node
/// image per pair, roles derived from the raw ids, edges in range.
pub open spec fn build_wf(st: BuildState, sensors: usize, outputs: usize) -> bool {
    &&& id_map_distinct(st.map)
    &&& id_map_dense(st.map)
    &&& st.nodes.len() == st.map.len()
    &&& forall|k: int|
        0 <= k < st.map.len() ==> (#[trigger] st.nodes[k]).id == spec_role(st.map[k].0, sensors, outputs)
    &&& forall|k: int, e: int|
        0 <= k < st.nodes.len() && 0 <= e < st.nodes[k].input.len()
            ==> #[trigger] st.nodes[k].input[e] < st.nodes.len()
    &&& forall|k: int, e: int|
        0 <= k < st.nodes.len() && 0 <= e < st.nodes[k].output.len()
            ==> #[trigger] st.nodes[k].output[e] < st.nodes.len()
}

/// Every endpoint of an enabled gene of `genes` has an index in `st`.
pub open spec fn build_covers(st: BuildState, genes: Seq<Gene>) -> bool {
    forall|gi: int|
        0 <= gi < genes.len() && (#[trigger] genes[gi]).enabled
            ==> id_map_has(st.map, genes[gi].node_in) && id_map_has(st.map, genes[gi].node_out)
}

/// The enabled genes of the list, in order.
pub open spec fn enabled_only(genes: Seq<Gene>) -> Seq<Gene>
    decreases genes.len(),
{
    if genes.len() == 0 {
        Seq::empty()
    } else if genes.last().enabled {
        enabled_only(genes.drop_last()).push(genes.last())
    } else {
        enabled_only(genes.drop_last())
    }
}

pub proof fn lemma_add_id_wf(st: BuildState, id: usize, sensors: usize, outputs: usize)
    requires
        build_wf(st, sensors, outputs),
        st.map.len() < usize::MAX,
    ensures
        build_wf(add_id(st, id, sensors, outputs), sensors, outputs),
        id_map_has(add_id(st, id, sensors, outputs).map, id),
        forall|i: usize| id_map_has(st.map, i) ==> id_map_has(#[trigger] add_id(st, id, sensors, outputs).map, i),
        forall|i: usize|
            id_map_has(st.map, i)
                ==> id_map_at(#[trigger] add_id(st, id, sensors, outputs).map, i) == id_map_at(st.map, i),
        add_id(st, id, sensors, outputs).map.len() <= st.map.len() + 1,
        forall|k: int| 0 <= k < st.map.len() ==> #[trigger] add_id(st, id, sensors, outputs).map[k] == st.map[k],
{
    let st2 = add_id(st, id, sensors, outputs);
    if id_map_has(st.map, id) {
    } else {
        let p = (id, st.nodes.len() as usize);
        let m2 = st.map.push(p);
        assert forall|j: int, l: int|
            0 <= j < m2.len() && 0 <= l < m2.len() && j != l implies m2[j].0 != m2[l].0 by {
            if j < st.map.len() && l < st.map.len() {
                assert(m2[j] == st.map[j]);
                assert(m2[l] == st.map[l]);
            } else if j < st.map.len() {
                assert(m2[j] == st.map[j]);
                assert(!id_map_has(st.map, id));
                assert(m2[l] == p);
            } else {
                assert(m2[j] == p);
                assert(m2[l] == st.map[l]);
                assert(!id_map_has(st.map, id));
            }
        }
        lemma_id_map_at_key(m2, st.map.len() as int);
        assert forall|i: usize| id_map_has(st.map, i) implies id_map_has(#[trigger] st2.map, i)
            && id_map_at(st2.map, i) == id_map_at(st.map, i) by {
            lemma_id_map_at_push(st.map, p, i);
        }
    }
}

pub proof fn lemma_gene_step_wf(st: BuildState, g: Gene, sensors: usize, outputs: usize)
    requires
        build_wf(st, sensors, outputs),
        st.map.len() + 2 <= usize::MAX,
    ensures
        build_wf(gene_step(st, g, sensors, outputs), sensors, outputs),
        g.enabled ==> id_map_has(gene_step(st, g, sensors, outputs).map, g.node_in),
        g.enabled ==> id_map_has(gene_step(st, g, sensors, outputs).map, g.node_out),
        forall|i: usize| id_map_has(st.map, i) ==> id_map_has(#[trigger] gene_step(st, g, sensors, outputs).map, i),
        forall|k: int| 0 <= k < st.map.len() ==> #[trigger] gene_step(st, g, sensors, outputs).map[k] == st.map[k],
        st.map.len() <= gene_step(st, g, sensors, outputs).map.len(),
        gene_step(st, g, sensors, outputs).map.len() <= st.map.len() + 2,
        forall|k: int|
            st.map.len() <= k < gene_step(st, g, sensors, outputs).map.len()
                ==> (#[trigger] gene_step(st, g, sensors, outputs).map[k]).0 == g.node_in
                    || gene_step(st, g, sensors, outputs).map[k].0 == g.node_out,
{
    if g.enabled {
        let st1 = add_id(st, g.node_in, sensors, outputs);
        lemma_add_id_wf(st, g.node_in, sensors, outputs);
        let st2 = add_id(st1, g.node_out, sensors, outputs);
        lemma_add_id_wf(st1, g.node_out, sensors, outputs);
        let i_in = id_map_at(st2.map, g.node_in);
        let i_out = id_map_at(st2.map, g.node_out);
        assert(i_in < st2.nodes.len() && i_out < st2.nodes.len()) by {
            let k_in = choose|k: int| 0 <= k < st2.map.len() && (#[trigger] st2.map[k]).0 == g.node_in;
            let k_out = choose|k: int| 0 <= k < st2.map.len() && (#[trigger] st2.map[k]).0 == g.node_out;
            assert(st2.map[k_in].1 == k_in && st2.map[k_out].1 == k_out);
        }
        let nodes3 = add_edge(st2.nodes, i_in as int, i_out as int);
        assert(forall|k: int|
            0 <= k < nodes3.len() ==> (#[trigger] nodes3[k]).id == st2.nodes[k].id);
    }
}

pub proof fn lemma_build_wf(genes: Seq<Gene>, sensors: usize, outputs: usize)
    requires
        2 * genes.len() + 2 <= usize::MAX,
    ensures
        build_wf(build_spec(genes, sensors, outputs), sensors, outputs),
        build_spec(genes, sensors, outputs).map.len() <= 2 * genes.len(),
        build_covers(build_spec(genes, sensors, outputs), genes),
    decreases genes.len(),
{
    if genes.len() == 0 {
    } else {
        let prefix = genes.drop_last();
        let g = genes.last();
        let st = build_spec(prefix, sensors, outputs);
        let st2 = gene_step(st, g, sensors, outputs);
        lemma_build_wf(prefix, sensors, outputs);
        lemma_gene_step_wf(st, g, sensors, outputs);
        assert forall|gi: int| 0 <= gi < genes.len() && (#[trigger] genes[gi]).enabled
            implies id_map_has(st2.map, genes[gi].node_in) && id_map_has(st2.map, genes[gi].node_out) by {
            if gi < prefix.len() {
                assert(prefix[gi] == genes[gi]);
            }
        }
    }
}

/// Disabled genes never introduce nodes or edges: the scan of a gene list
/// gives exactly the scan of its enabled genes alone.
pub proof fn lemma_disabled_irrelevant(genes: Seq<Gene>, sensors: usize, outputs: usize)
    ensures
        build_spec(genes, sensors, outputs) == build_spec(enabled_only(genes), sensors, outputs),
    decreases genes.len(),
{
    if genes.len() == 0 {
    } else {
        let prefix = genes.drop_last();
        let g = genes.last();
        lemma_disabled_irrelevant(prefix, sensors, outputs);
        if g.enabled {
            let e = enabled_only(prefix).push(g);
            assert(enabled_only(genes) == e);
            assert(e.drop_last() =~= enabled_only(prefix));
            assert(e.last() == g);
            assert(e.len() != 0);
        } else {
            assert(enabled_only(genes) == enabled_only(prefix));
        }
    }
}

/// The build state an executable node table and id map stand for.
pub open spec fn exec_state(network: Seq<Node>, m: Seq<(usize, usize)>) -> BuildState {
    BuildState { nodes: nodes_view(network), map: m }
}

/// Look `id` up, or allocate the next index for it: the executable image
/// of `add_id`.
fn try_add_node(found: &mut IdMap, network: &mut Vec<Node>, id: usize, state: &NetworkState) -> (ix: usize)
    requires
        build_wf(exec_state(old(network)@, old(found).pairs@), state.sensor_nodes, state.output_nodes),
    ensures
        exec_state(final(network)@, final(found).pairs@) == add_id(
            exec_state(old(network)@, old(found).pairs@),
            id,
            state.sensor_nodes,
            state.output_nodes,
        ),
        id_map_has(final(found).pairs@, id),
        ix == id_map_at(final(found).pairs@, id),
        ix < final(network)@.len(),
{
    let ghost st0 = exec_state(network@, found.pairs@);
    match found.get(id) {
        Some(ix) => {
            proof {
                let k = choose|k: int|
                    0 <= k < found.pairs@.len() && (#[trigger] found.pairs@[k]).0 == id;
                assert(found.pairs@[k].1 == k);
            }
            ix
        },
        None => {
            let n = network.len();
            found.pairs.push((id, n));
            network.push(Node { input: Vec::new(), output: Vec::new(), id: NodeType::get(state, id) });
            proof {
                let p = (id, n);
                let m1 = st0.map;
                let m2 = found.pairs@;
                assert(m2 == m1.push(p));
                assert forall|j: int, l: int|
                    0 <= j < m2.len() && 0 <= l < m2.len() && j != l implies m2[j].0 != m2[l].0 by {
                    if j < m1.len() && l < m1.len() {
                        assert(m2[j] == m1[j]);
                        assert(m2[l] == m1[l]);
                    } else if j < m1.len() {
                        assert(m2[j] == m1[j]);
                        assert(m2[l] == p);
                    } else {
                        assert(m2[j] == p);
                        assert(m2[l] == m1[l]);
                    }
                }
                lemma_id_map_at_key(m2, m1.len() as int);
                assert(nodes_view(network@) =~= st0.nodes.push(
                    NodeV { input: Seq::empty(), output: Seq::empty(), id: spec_role(id, state.sensor_nodes, state.output_nodes) },
                ));
            }
            n
        },
    }
}

/// Record the edge between two allocated indices: the executable image of
/// `add_edge`. The two indices may coincide (a self-referential gene).
fn push_edge(network: &mut Vec<Node>, i_in: usize, i_out: usize)
    requires
        i_in < old(network)@.len(),
        i_out < old(network)@.len(),
    ensures
        nodes_view(final(network)@) == add_edge(nodes_view(old(network)@), i_in as int, i_out as int),
{
    let ghost nv0 = nodes_view(network@);
    let mut n_in = network.remove(i_in);
    n_in.output.push(i_out);
    network.insert(i_in, n_in);
    proof {
        let step1 = nv0.update(
            i_in as int,
            NodeV { input: nv0[i_in as int].input, output: nv0[i_in as int].output.push(i_out), id: nv0[i_in as int].id },
        );
        assert(network@ =~= old(network)@.update(i_in as int, n_in));
        assert(nodes_view(network@) =~= step1);
    }
    let ghost mid = network@;
    let ghost nv1 = nodes_view(network@);
    let mut n_out = network.remove(i_out);
    n_out.input.push(i_in);
    network.insert(i_out, n_out);
    proof {
        let step2 = nv1.update(
            i_out as int,
            NodeV { input: nv1[i_out as int].input.push(i_in), output: nv1[i_out as int].output, id: nv1[i_out as int].id },
        );
        assert(network@ =~= mid.update(i_out as int, n_out));
        assert(nodes_view(network@) =~= step2);
        assert(nodes_view(network@) =~= add_edge(nv0, i_in as int, i_out as int));
    }
}

/// Rebuild the node table and the id-to-index map from the enabled genes
/// of `state`, scanning them in list order. Deterministic: the result is
/// exactly `build_spec` of the gene list and the two counts.
pub fn construct_network(state: &NetworkState) -> (r: (Vec<Node>, IdMap))
    requires
        2 * state.genes@.len() + 2 <= usize::MAX,
    ensures
        exec_state(r.0@, r.1.pairs@) == build_spec(state.genes@, state.sensor_nodes, state.output_nodes),
        build_wf(exec_state(r.0@, r.1.pairs@), state.sensor_nodes, state.output_nodes),
        build_covers(exec_state(r.0@, r.1.pairs@), state.genes@),
        r.1.wf(),
        r.0@.len() == r.1.pairs@.len(),
{
    let ghost sensors = state.sensor_nodes;
    let ghost outputs = state.output_nodes;
    let mut found = IdMap { pairs: Vec::new() };
    let mut network: Vec<Node> = Vec::new();
    let n_genes = state.genes.len();
    proof {
        assert(state.genes@.take(0) =~= Seq::<Gene>::empty());
        assert(nodes_view(network@) =~= Seq::<NodeV>::empty());
        assert(exec_state(network@, found.pairs@) == build_empty());
    }
    let mut gi: usize = 0;
    while gi < n_genes
        invariant
            n_genes == state.genes@.len(),
            2 * state.genes@.len() + 2 <= usize::MAX,
            0 <= gi <= n_genes,
            exec_state(network@, found.pairs@) == build_spec(state.genes@.take(gi as int), sensors, outputs),
            build_wf(exec_state(network@, found.pairs@), sensors, outputs),
            found.pairs@.len() <= 2 * gi,
            sensors == state.sensor_nodes,
            outputs == state.output_nodes,
        decreases n_genes - gi,
    {
        let ghost st_before = exec_state(network@, found.pairs@);
        let g = state.genes[gi];
        if g.enabled {
            let ghost st1 = add_id(st_before, g.node_in, sensors, outputs);
            let i_in = try_add_node(&mut found, &mut network, g.node_in, state);
            let ghost st2 = add_id(st1, g.node_out, sensors, outputs);
            let i_out = try_add_node(&mut found, &mut network, g.node_out, state);
            proof {
                lemma_add_id_wf(st_before, g.node_in, sensors, outputs);
                lemma_add_id_wf(st1, g.node_out, sensors, outputs);
                assert(id_map_at(st2.map, g.node_in) == id_map_at(st1.map, g.node_in));
            }
            push_edge(&mut network, i_in, i_out);
        }
        proof {
            let taken = state.genes@.take(gi + 1 as int);
            assert(taken.drop_last() =~= state.genes@.take(gi as int));
            assert(taken.last() == g);
            assert(exec_state(network@, found.pairs@) == gene_step(st_before, g, sensors, outputs));
            lemma_gene_step_wf(st_before, g, sensors, outputs);
        }
        gi += 1;
    }
    proof {
        assert(state.genes@.take(gi as int) =~= state.genes@);
        lemma_build_wf(state.genes@, sensors, outputs);
    }
    (network, found)
}

/// Rebuilding is deterministic: the same gene list (same order) under the
/// same counts gives the identical node table and id-to-index map.
pub proof fn lemma_rebuild_deterministic(
    genes1: Seq<Gene>,
    genes2: Seq<Gene>,
    sensors: usize,
    outputs: usize,
)
    requires
        genes1 == genes2,
    ensures
        build_spec(genes1, sensors, outputs) == build_spec(genes2, sensors, outputs),
{
}

/// Every id that appears in some enabled gene is mapped to exactly one
/// internal index, and the index set is exactly `0..n` with no gaps.
pub proof fn lemma_rebuild_complete(genes: Seq<Gene>, sensors: usize, outputs: usize, id: usize)
    requires
        2 * genes.len() + 2 <= usize::MAX,
        exists|gi: int|
            0 <= gi < genes.len() && (#[trigger] genes[gi]).enabled
                && (genes[gi].node_in == id || genes[gi].node_out == id),
    ensures
        exists|k: int|
            0 <= k < build_spec(genes, sensors, outputs).map.len()
                && (#[trigger] build_spec(genes, sensors, outputs).map[k]).0 == id,
        forall|j: int, k: int|
            0 <= j < build_spec(genes, sensors, outputs).map.len()
                && 0 <= k < build_spec(genes, sensors, outputs).map.len()
                && build_spec(genes, sensors, outputs).map[j].0 == id
                && build_spec(genes, sensors, outputs).map[k].0 == id ==> j == k,
        forall|k: int|
            0 <= k < build_spec(genes, sensors, outputs).map.len()
                ==> (#[trigger] build_spec(genes, sensors, outputs).map[k]).1 == k,
{
    lemma_build_wf(genes, sensors, outputs);
    let st = build_spec(genes, sensors, outputs);
    let gi = choose|gi: int|
        0 <= gi < genes.len() && (#[trigger] genes[gi]).enabled
            && (genes[gi].node_in == id || genes[gi].node_out == id);
    assert(id_map_has(st.map, id));
}

} // verus!
