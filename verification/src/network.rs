//! Builders that fill a graph: layers of neurons, random connections
//! between layers, and winner-take-all layers.

use vstd::prelude::*;
use crate::graph::{NeuronEntry, SimulationGraph};
use crate::neurons::{IzhikevichNeuron, Neuron};
use crate::random::random_in_range;
use crate::recorder::{SimpleSpikeRecorder, DEFAULT_MAX_SPIKES};
use crate::structure::ColumnLayer;
use crate::synapses::{
    NeuronId, StdpParams, StdpSpikeType, StdpState, StdpSynapse, Synapse, SynapseId, SynapseType,
};
use crate::transcoder::MAX_DRAW;

verus! {

/// The least weight, 0.1, of a synapse between two layers.
pub const CONNECTION_WEIGHT_MIN: i64 = 100_000;

/// The greatest weight, 0.3, of a synapse between two layers.
pub const CONNECTION_WEIGHT_MAX: i64 = 300_000;

/// The least weight, 2, of a synapse within a winner-take-all layer.
pub const INHIBITION_WEIGHT_MIN: i64 = 2_000_000;

/// The greatest weight, 4, of a synapse within a winner-take-all layer.
pub const INHIBITION_WEIGHT_MAX: i64 = 4_000_000;

/// The reset potential, -100, of a built neuron.
pub const BUILT_RESET: i64 = -100_000_000;

/// The potential, -70, at which a built neuron starts.
pub const BUILT_POTENTIAL: i64 = -70_000_000;

/// The recovery, -14, at which a built neuron starts.
pub const BUILT_RECOVERY: i64 = -14_000_000;

/// The trace, -0.01, that a postsynaptic spike leaves on a built synapse.
pub const BUILT_A_MINUS: i64 = -10_000;

/// The neuron that the builders create: an Izhikevich neuron at -70 with
/// `a = 0.02`, `b = 0.2`, `c = -100`, `d = 8`, `u = -14` and a weight
/// multiplier of 80.
pub open spec fn built_neuron() -> Neuron {
    Neuron::Izhikevich(
        IzhikevichNeuron {
            a: 20_000,
            b: 200_000,
            c: BUILT_RESET,
            d: 8_000_000,
            v: BUILT_POTENTIAL,
            u: BUILT_RECOVERY,
            synapse_weight_multiplier: 80_000_000,
        },
    )
}

/// The plasticity constants that the builders use: `a_plus = 0.01`,
/// `a_minus = -0.01`, both time constants 0.02, weights from 0 to 1.
pub open spec fn built_params() -> StdpParams {
    StdpParams {
        a_plus: 10_000,
        a_minus: BUILT_A_MINUS,
        tau_plus: 20_000,
        tau_minus: 20_000,
        w_max: 1_000_000,
        w_min: 0,
    }
}

/// The synapse that the builders create from `pre` to `post`: plastic, with
/// the builders' constants, a delay of one and a zero trace.
pub open spec fn built_synapse(
    pre: NeuronId,
    post: NeuronId,
    synapse_type: SynapseType,
    weight: i64,
) -> Synapse {
    Synapse::Stdp(
        StdpSynapse {
            weight,
            delay: 1,
            source: pre,
            target: post,
            synapse_type,
            stdp_params: built_params(),
            stdp_state: StdpState { a: 0, spike_type: StdpSpikeType::PreSpike },
        },
    )
}

/// An entry as the builders create it: the builders' neuron in `layer`, with
/// an empty recorder of the default capacity.
pub open spec fn built_entry(entry: NeuronEntry, layer: ColumnLayer) -> bool {
    &&& entry.neuron == built_neuron()
    &&& entry.layer == layer
    &&& match entry.recorder {
        Some(r) => r@.len() == 0 && r.capacity() == DEFAULT_MAX_SPIKES,
        None => false,
    }
}

/// The identifiers `first`, `first + 1`, ... of `count` neurons.
pub open spec fn id_run(first: int, count: int) -> Seq<NeuronId> {
    Seq::new(count as nat, |k: int| (first + k) as usize)
}

/// Whether `after` is `before` with `count` built entries of `layer` added
/// at the end.
pub open spec fn grown_by(
    before: Seq<NeuronEntry>,
    after: Seq<NeuronEntry>,
    count: int,
    layer: ColumnLayer,
) -> bool {
    &&& after.len() == before.len() + count
    &&& forall|i: int| 0 <= i < before.len() ==> #[trigger] after[i] == before[i]
    &&& forall|i: int| before.len() <= i < after.len() ==> built_entry(#[trigger] after[i], layer)
}

/// The neuron that the builders create.
pub fn default_neuron() -> (n: Neuron)
    ensures
        n == built_neuron(),
{
    Neuron::Izhikevich(
        IzhikevichNeuron {
            a: 20_000,
            b: 200_000,
            c: BUILT_RESET,
            d: 8_000_000,
            v: BUILT_POTENTIAL,
            u: BUILT_RECOVERY,
            synapse_weight_multiplier: 80_000_000,
        },
    )
}

/// The plasticity constants that the builders use.
pub fn default_stdp_params() -> (p: StdpParams)
    ensures
        p == built_params(),
        p.wf(),
{
    StdpParams {
        a_plus: 10_000,
        a_minus: BUILT_A_MINUS,
        tau_plus: 20_000,
        tau_minus: 20_000,
        w_max: 1_000_000,
        w_min: 0,
    }
}

/// Adds a block of `size_x * size_y * size_z` built neurons of `layer` to
/// the graph and returns their identifiers in the order of creation.
pub fn add_neuron_block(
    graph: &mut SimulationGraph,
    size_x: usize,
    size_y: usize,
    size_z: usize,
    layer: ColumnLayer,
) -> (ids: Vec<NeuronId>)
    ensures
        final(graph).synapses@ == old(graph).synapses@,
        grown_by(old(graph).neurons@, final(graph).neurons@, size_x * size_y * size_z, layer),
        ids@ == id_run(old(graph).neurons@.len() as int, size_x * size_y * size_z),
        forall|k: int| 0 <= k < ids@.len() ==> #[trigger] ids@[k] == old(graph).neurons@.len() + k,
{
    let mut ids: Vec<NeuronId> = Vec::new();
    let ghost base = graph.neurons@.len() as int;
    let mut x: usize = 0;
    while x < size_x
        invariant
            0 <= x <= size_x,
            base == old(graph).neurons@.len(),
            graph.synapses@ == old(graph).synapses@,
            grown_by(old(graph).neurons@, graph.neurons@, x * size_y * size_z, layer),
            ids@ == id_run(base, x * size_y * size_z),
            forall|k: int| 0 <= k < ids@.len() ==> #[trigger] ids@[k] == base + k,
        decreases size_x - x,
    {
        let mut y: usize = 0;
        while y < size_y
            invariant
                0 <= y <= size_y,
                0 <= x < size_x,
                base == old(graph).neurons@.len(),
                graph.synapses@ == old(graph).synapses@,
                grown_by(
                    old(graph).neurons@,
                    graph.neurons@,
                    x * size_y * size_z + y * size_z,
                    layer,
                ),
                ids@ == id_run(base, x * size_y * size_z + y * size_z),
                forall|k: int| 0 <= k < ids@.len() ==> #[trigger] ids@[k] == base + k,
            decreases size_y - y,
        {
            let mut z: usize = 0;
            while z < size_z
                invariant
                    0 <= z <= size_z,
                    base == old(graph).neurons@.len(),
                    graph.synapses@ == old(graph).synapses@,
                    grown_by(
                        old(graph).neurons@,
                        graph.neurons@,
                        x * size_y * size_z + y * size_z + z,
                        layer,
                    ),
                    ids@ == id_run(base, x * size_y * size_z + y * size_z + z),
                    forall|k: int| 0 <= k < ids@.len() ==> #[trigger] ids@[k] == base + k,
                decreases size_z - z,
            {
                let ghost count = x * size_y * size_z + y * size_z + z;
                assert(0 <= count) by (nonlinear_arith)
                    requires
                        count == x * size_y * size_z + y * size_z + z,
                ;
                let id: NeuronId = graph.add_neuron(
                    default_neuron(),
                    layer,
                    Some(SimpleSpikeRecorder::new(DEFAULT_MAX_SPIKES)),
                );
                ids.push(id);
                assert(ids@ =~= id_run(base, count + 1));
                z = z + 1;
            }
            assert(x * size_y * size_z + y * size_z + size_z == x * size_y * size_z + (y + 1)
                * size_z) by (nonlinear_arith);
            y = y + 1;
        }
        assert(x * size_y * size_z + size_y * size_z == (x + 1) * size_y * size_z)
            by (nonlinear_arith);
        x = x + 1;
    }
    ids
}

/// The draws that decide the fate of one pair of neurons: whether it is
/// connected, the type of the synapse, and its weight.
#[derive(Clone, Copy, Debug)]
pub struct ConnectionDraw {
    pub chance: i64,
    pub kind: i64,
    pub weight: i64,
}

/// Whether a draw lets a pair be connected: the draw does not exceed the
/// connection chance.
pub open spec fn connects(draw: i64, connection_chance: i64) -> bool {
    draw <= connection_chance
}

/// The type that a draw gives a synapse: excitatory if the draw is below
/// the type ratio, inhibitory if not.
pub open spec fn drawn_type(draw: i64, type_ratio: i64) -> SynapseType {
    if draw < type_ratio {
        SynapseType::Excitatory
    } else {
        SynapseType::Inhibitory
    }
}

/// Whether `draws` holds `n` draws as the generator gives them: the chance
/// and the kind at least zero and below one, the weight from `lo` to `hi`.
pub open spec fn drawn(draws: Seq<ConnectionDraw>, n: nat, lo: i64, hi: i64) -> bool {
    &&& draws.len() == n
    &&& forall|i: int|
        0 <= i < n ==> {
            &&& 0 <= (#[trigger] draws[i]).chance <= MAX_DRAW
            &&& 0 <= draws[i].kind <= MAX_DRAW
            &&& lo <= draws[i].weight <= hi
        }
}

/// The slots after the first `k` pairs were visited. The pairs are visited
/// source by source, so pair `p` joins source `p / targets.len()` to target
/// `p % targets.len()`. A pair whose draw connects it gets a built synapse
/// in a new slot at the end, with the type and the weight of its draw. A
/// pair without a draw is not connected.
pub open spec fn connected(
    synapses: Seq<Option<Synapse>>,
    sources: Seq<NeuronId>,
    targets: Seq<NeuronId>,
    connection_chance: i64,
    type_ratio: i64,
    draws: Seq<ConnectionDraw>,
    k: nat,
) -> Seq<Option<Synapse>>
    decreases k,
{
    if k == 0 || targets.len() == 0 {
        synapses
    } else {
        let before = connected(
            synapses,
            sources,
            targets,
            connection_chance,
            type_ratio,
            draws,
            (k - 1) as nat,
        );
        let pair = k - 1;
        let source = pair / (targets.len() as int);
        let target = pair % (targets.len() as int);
        if pair < draws.len() && source < sources.len() && connects(
            draws[pair].chance,
            connection_chance,
        ) {
            before.push(
                Some(
                    built_synapse(
                        sources[source],
                        targets[target],
                        drawn_type(draws[pair].kind, type_ratio),
                        draws[pair].weight,
                    ),
                ),
            )
        } else {
            before
        }
    }
}

/// The slots after the first `k` ordered pairs of a winner-take-all layer
/// were visited, member by member: pair `p` joins member `p / n` to member
/// `p % n`, where `n` is the number of members. Every pair of two different
/// members gets a built inhibitory synapse in a new slot at the end, with
/// the weight that `weights` holds for the pair.
pub open spec fn inhibited(
    synapses: Seq<Option<Synapse>>,
    members: Seq<NeuronId>,
    weights: Seq<i64>,
    k: nat,
) -> Seq<Option<Synapse>>
    decreases k,
{
    if k == 0 || members.len() == 0 {
        synapses
    } else {
        let before = inhibited(synapses, members, weights, (k - 1) as nat);
        let pair = k - 1;
        let source = pair / (members.len() as int);
        let target = pair % (members.len() as int);
        if pair < weights.len() && source < members.len() && source != target {
            before.push(
                Some(
                    built_synapse(
                        members[source],
                        members[target],
                        SynapseType::Inhibitory,
                        weights[pair],
                    ),
                ),
            )
        } else {
            before
        }
    }
}

/// Whether each of the `n` weights lies between `lo` and `hi`.
pub open spec fn weights_within(weights: Seq<i64>, n: nat, lo: i64, hi: i64) -> bool {
    weights.len() == n && forall|i: int| 0 <= i < n ==> lo <= #[trigger] weights[i] <= hi
}

/// Pair `a * n + b` is the pair of `a` and `b`.
pub proof fn lemma_pair_index(a: int, b: int, n: int)
    requires
        0 <= a,
        0 <= b < n,
    ensures
        (a * n + b) / n == a,
        (a * n + b) % n == b,
        a * n + b >= 0,
{
    vstd::arithmetic::div_mod::lemma_fundamental_div_mod_converse(a * n + b, n, a, b);
    assert(a * n >= 0) by (nonlinear_arith)
        requires
            a >= 0,
            n > 0,
    ;
}

/// Decides from a draw whether a pair is connected.
pub fn is_connected(draw: i64, connection_chance: i64) -> (r: bool)
    ensures
        r == connects(draw, connection_chance),
{
    !(draw > connection_chance)
}

/// Decides from a draw the type of a synapse.
pub fn synapse_type_for(draw: i64, type_ratio: i64) -> (t: SynapseType)
    ensures
        t == drawn_type(draw, type_ratio),
{
    if draw < type_ratio {
        SynapseType::Excitatory
    } else {
        SynapseType::Inhibitory
    }
}

/// A feed-forward network: the layers of a graph, each the identifiers of
/// its neurons, in the order in which they were added.
#[derive(Debug)]
pub struct FeedForwardNetwork {
    layers: Vec<Vec<NeuronId>>,
}

impl View for FeedForwardNetwork {
    type V = Seq<Seq<NeuronId>>;

    /// The layers, each the identifiers of its neurons.
    closed spec fn view(&self) -> Seq<Seq<NeuronId>> {
        Seq::new(self.layers@.len(), |l: int| self.layers@[l]@)
    }
}

/// The layer that a neuron gets where none is given: the first.
pub open spec fn layer_or_first(column_layer: Option<ColumnLayer>) -> ColumnLayer {
    match column_layer {
        Some(layer) => layer,
        None => ColumnLayer::L1,
    }
}

impl FeedForwardNetwork {
    /// A network without layers.
    pub fn new() -> (network: FeedForwardNetwork)
        ensures
            network@.len() == 0,
    {
        FeedForwardNetwork { layers: Vec::new() }
    }

    /// The number of layers.
    pub fn layer_count(&self) -> (n: usize)
        ensures
            n == self@.len(),
    {
        self.layers.len()
    }

    /// The identifiers of the neurons of layer `index`, or none if there is
    /// no such layer.
    pub fn layer(&self, index: usize) -> (ids: Option<&Vec<NeuronId>>)
        ensures
            index < self@.len() ==> ids.is_some() && ids.unwrap()@ == self@[index as int],
            index >= self@.len() ==> ids.is_none(),
    {
        if index < self.layers.len() {
            Some(&self.layers[index])
        } else {
            None
        }
    }

    /// Adds a layer of `size_x * size_y * size_z` built neurons to the graph
    /// and to the network. Without a `column_layer` the neurons are of the
    /// first.
    pub fn add_layer(
        &mut self,
        size_x: usize,
        size_y: usize,
        size_z: usize,
        graph: &mut SimulationGraph,
        column_layer: Option<ColumnLayer>,
    )
        ensures
            final(graph).synapses@ == old(graph).synapses@,
            grown_by(
                old(graph).neurons@,
                final(graph).neurons@,
                size_x * size_y * size_z,
                layer_or_first(column_layer),
            ),
            final(self)@ == old(self)@.push(
                id_run(old(graph).neurons@.len() as int, size_x * size_y * size_z),
            ),
    {
        let column_layer: ColumnLayer = match column_layer {
            Some(layer) => layer,
            None => ColumnLayer::L1,
        };
        let layer: Vec<NeuronId> = add_neuron_block(graph, size_x, size_y, size_z, column_layer);
        self.layers.push(layer);
        assert(self@ =~= old(self)@.push(
            id_run(old(graph).neurons@.len() as int, size_x * size_y * size_z),
        ));
    }

    /// Adds a built synapse of the given type from `pre_neuron` to
    /// `post_neuron`, with a weight drawn from `weight_range`, and returns
    /// its identifier.
    pub fn create_synapse(
        pre_neuron: NeuronId,
        post_neuron: NeuronId,
        synapse_type: SynapseType,
        weight_range: (i64, i64),
        graph: &mut SimulationGraph,
    ) -> (id: SynapseId)
        requires
            weight_range.0 <= weight_range.1,
        ensures
            id == old(graph).synapses@.len(),
            final(graph).neurons@ == old(graph).neurons@,
            exists|weight: i64|
                weight_range.0 <= weight <= weight_range.1 && final(graph).synapses@ == old(
                    graph,
                ).synapses@.push(
                    Some(#[trigger] built_synapse(pre_neuron, post_neuron, synapse_type, weight)),
                ),
    {
        let weight: i64 = random_in_range(weight_range.0, weight_range.1);
        FeedForwardNetwork::place_synapse(pre_neuron, post_neuron, synapse_type, weight, graph)
    }

    /// Adds a built synapse of the given type and weight from `pre_neuron`
    /// to `post_neuron`, and returns its identifier.
    pub fn place_synapse(
        pre_neuron: NeuronId,
        post_neuron: NeuronId,
        synapse_type: SynapseType,
        weight: i64,
        graph: &mut SimulationGraph,
    ) -> (id: SynapseId)
        ensures
            id == old(graph).synapses@.len(),
            final(graph).neurons@ == old(graph).neurons@,
            final(graph).synapses@ == old(graph).synapses@.push(
                Some(built_synapse(pre_neuron, post_neuron, synapse_type, weight)),
            ),
    {
        let synapse: StdpSynapse = StdpSynapse::new(
            pre_neuron,
            post_neuron,
            weight,
            1,
            synapse_type,
            default_stdp_params(),
        );
        graph.add_synapse(Synapse::Stdp(synapse))
    }

    /// Connects two layers as `draws` decide, one draw to a pair. The pairs
    /// are visited source by source. A pair is connected if its chance draw
    /// does not exceed `connection_chance`; its synapse is excitatory if its
    /// kind draw is below `type_ratio` and inhibitory if not, and has the
    /// weight of the draw. The new synapses follow the old ones in the order
    /// of the pairs.
    pub fn connect_layers_with(
        &self,
        source_layer: usize,
        target_layer: usize,
        connection_chance: i64,
        type_ratio: i64,
        draws: &Vec<ConnectionDraw>,
        graph: &mut SimulationGraph,
    )
        requires
            source_layer < self@.len(),
            target_layer < self@.len(),
        ensures
            final(graph).neurons@ == old(graph).neurons@,
            final(graph).synapses@ == connected(
                old(graph).synapses@,
                self@[source_layer as int],
                self@[target_layer as int],
                connection_chance,
                type_ratio,
                draws@,
                self@[source_layer as int].len() * self@[target_layer as int].len(),
            ),
    {
        let ghost sources = self@[source_layer as int];
        let ghost targets = self@[target_layer as int];
        let ghost start = graph.synapses@;
        let source_count: usize = self.layers[source_layer].len();
        let target_count: usize = self.layers[target_layer].len();
        let mut next_draw: usize = 0;
        let mut a: usize = 0;
        assert(0 * target_count == 0);
        while a < source_count
            invariant
                0 <= a <= source_count,
                source_layer < self.layers@.len(),
                target_layer < self.layers@.len(),
                sources == self.layers@[source_layer as int]@,
                targets == self.layers@[target_layer as int]@,
                source_count == sources.len(),
                target_count == targets.len(),
                start == old(graph).synapses@,
                graph.neurons@ == old(graph).neurons@,
                a * target_count >= 0,
                next_draw == if a * target_count < draws@.len() {
                    a * target_count
                } else {
                    draws@.len() as int
                },
                graph.synapses@ == connected(
                    start,
                    sources,
                    targets,
                    connection_chance,
                    type_ratio,
                    draws@,
                    (a * target_count) as nat,
                ),
            decreases source_count - a,
        {
            let pre_neuron: NeuronId = self.layers[source_layer][a];
            let mut b: usize = 0;
            while b < target_count
                invariant
                    0 <= b <= target_count,
                    0 <= a < source_count,
                    source_layer < self.layers@.len(),
                    target_layer < self.layers@.len(),
                    sources == self.layers@[source_layer as int]@,
                    targets == self.layers@[target_layer as int]@,
                    source_count == sources.len(),
                    target_count == targets.len(),
                    pre_neuron == sources[a as int],
                    start == old(graph).synapses@,
                    graph.neurons@ == old(graph).neurons@,
                    a * target_count + b >= 0,
                    next_draw == if a * target_count + b < draws@.len() {
                        a * target_count + b
                    } else {
                        draws@.len() as int
                    },
                    graph.synapses@ == connected(
                        start,
                        sources,
                        targets,
                        connection_chance,
                        type_ratio,
                        draws@,
                        (a * target_count + b) as nat,
                    ),
                decreases target_count - b,
            {
                let post_neuron: NeuronId = self.layers[target_layer][b];
                proof {
                    lemma_pair_index(a as int, b as int, target_count as int);
                }
                if next_draw < draws.len() {
                    let draw: ConnectionDraw = draws[next_draw];
                    if is_connected(draw.chance, connection_chance) {
                        let _id: SynapseId = FeedForwardNetwork::place_synapse(
                            pre_neuron,
                            post_neuron,
                            synapse_type_for(draw.kind, type_ratio),
                            draw.weight,
                            graph,
                        );
                    }
                    next_draw = next_draw + 1;
                }
                b = b + 1;
            }
            assert(a * target_count + target_count == (a + 1) * target_count) by (nonlinear_arith);
            a = a + 1;
        }
        proof {
            if targets.len() == 0 {
                assert(source_count * target_count == 0) by (nonlinear_arith)
                    requires
                        target_count == 0,
                ;
            }
        }
    }

    /// Connects two layers at random. Every pair of a neuron of the source
    /// layer and one of the target layer is connected with a probability of
    /// `connection_chance`; a synapse is excitatory with a probability of
    /// `type_ratio` and inhibitory otherwise, and its weight is drawn between
    /// 0.1 and 0.3. The result is that of `connect_layers_with` on draws of
    /// the generator.
    pub fn connect_layers(
        &self,
        source_layer: usize,
        target_layer: usize,
        connection_chance: i64,
        type_ratio: i64,
        graph: &mut SimulationGraph,
    )
        requires
            source_layer < self@.len(),
            target_layer < self@.len(),
        ensures
            final(graph).neurons@ == old(graph).neurons@,
            exists|draws: Seq<ConnectionDraw>|
                drawn(
                    draws,
                    (self@[source_layer as int].len() * self@[target_layer as int].len()) as nat,
                    CONNECTION_WEIGHT_MIN,
                    CONNECTION_WEIGHT_MAX,
                ) && final(graph).synapses@ == #[trigger] connected(
                    old(graph).synapses@,
                    self@[source_layer as int],
                    self@[target_layer as int],
                    connection_chance,
                    type_ratio,
                    draws,
                    self@[source_layer as int].len() * self@[target_layer as int].len(),
                ),
    {
        let source_count: usize = self.layers[source_layer].len();
        let target_count: usize = self.layers[target_layer].len();
        let mut draws: Vec<ConnectionDraw> = Vec::new();
        let mut a: usize = 0;
        assert(0 * target_count == 0);
        while a < source_count
            invariant
                0 <= a <= source_count,
                a * target_count >= 0,
                drawn(
                    draws@,
                    (a * target_count) as nat,
                    CONNECTION_WEIGHT_MIN,
                    CONNECTION_WEIGHT_MAX,
                ),
            decreases source_count - a,
        {
            let mut b: usize = 0;
            while b < target_count
                invariant
                    0 <= b <= target_count,
                    a * target_count + b >= 0,
                    drawn(
                        draws@,
                        (a * target_count + b) as nat,
                        CONNECTION_WEIGHT_MIN,
                        CONNECTION_WEIGHT_MAX,
                    ),
                decreases target_count - b,
            {
                draws.push(
                    ConnectionDraw {
                        chance: random_in_range(0, MAX_DRAW),
                        kind: random_in_range(0, MAX_DRAW),
                        weight: random_in_range(CONNECTION_WEIGHT_MIN, CONNECTION_WEIGHT_MAX),
                    },
                );
                b = b + 1;
            }
            assert(a * target_count + target_count == (a + 1) * target_count) by (nonlinear_arith);
            a = a + 1;
        }
        self.connect_layers_with(
            source_layer,
            target_layer,
            connection_chance,
            type_ratio,
            &draws,
            graph,
        );
    }

    /// Adds a winner-take-all layer: a layer of built neurons in which every
    /// neuron inhibits every other one, through a synapse with a weight
    /// drawn between 2 and 4. The synapses are created member by member.
    pub fn add_wta_layer(
        &mut self,
        size_x: usize,
        size_y: usize,
        size_z: usize,
        graph: &mut SimulationGraph,
        column_layer: Option<ColumnLayer>,
    )
        ensures
            grown_by(
                old(graph).neurons@,
                final(graph).neurons@,
                size_x * size_y * size_z,
                layer_or_first(column_layer),
            ),
            final(self)@ == old(self)@.push(
                id_run(old(graph).neurons@.len() as int, size_x * size_y * size_z),
            ),
            exists|weights: Seq<i64>|
                weights_within(
                    weights,
                    ((size_x * size_y * size_z) * (size_x * size_y * size_z)) as nat,
                    INHIBITION_WEIGHT_MIN,
                    INHIBITION_WEIGHT_MAX,
                ) && final(graph).synapses@ == #[trigger] inhibited(
                    old(graph).synapses@,
                    id_run(old(graph).neurons@.len() as int, size_x * size_y * size_z),
                    weights,
                    ((size_x * size_y * size_z) * (size_x * size_y * size_z)) as nat,
                ),
    {
        let column_layer: ColumnLayer = match column_layer {
            Some(layer) => layer,
            None => ColumnLayer::L1,
        };
        let layer: Vec<NeuronId> = add_neuron_block(graph, size_x, size_y, size_z, column_layer);
        let ghost members = layer@;
        let ghost start = graph.synapses@;
        let ghost grown = graph.neurons@;
        let ghost mut weights: Seq<i64> = Seq::empty();
        let n: usize = layer.len();
        assert forall|i: int, k: int| 0 <= i < k < n implies members[i] != members[k] by {
            assert(members[i] == old(graph).neurons@.len() + i);
            assert(members[k] == old(graph).neurons@.len() + k);
        }
        let mut a: usize = 0;
        assert(0 * n == 0);
        while a < n
            invariant
                0 <= a <= n,
                n == layer@.len(),
                members == layer@,
                forall|i: int, k: int| 0 <= i < k < n ==> members[i] != members[k],
                start == old(graph).synapses@,
                graph.neurons@ == grown,
                a * n >= 0,
                weights_within(
                    weights,
                    (a * n) as nat,
                    INHIBITION_WEIGHT_MIN,
                    INHIBITION_WEIGHT_MAX,
                ),
                graph.synapses@ == inhibited(start, members, weights, (a * n) as nat),
            decreases n - a,
        {
            let pre_neuron: NeuronId = layer[a];
            let mut b: usize = 0;
            while b < n
                invariant
                    0 <= b <= n,
                    0 <= a < n,
                    n == layer@.len(),
                    members == layer@,
                    forall|i: int, k: int| 0 <= i < k < n ==> members[i] != members[k],
                    pre_neuron == members[a as int],
                    start == old(graph).synapses@,
                    graph.neurons@ == grown,
                    a * n + b >= 0,
                    weights_within(
                        weights,
                        (a * n + b) as nat,
                        INHIBITION_WEIGHT_MIN,
                        INHIBITION_WEIGHT_MAX,
                    ),
                    graph.synapses@ == inhibited(start, members, weights, (a * n + b) as nat),
                decreases n - b,
            {
                let post_neuron: NeuronId = layer[b];
                let ghost before = graph.synapses@;
                let ghost known = weights;
                proof {
                    lemma_pair_index(a as int, b as int, n as int);
                }
                if pre_neuron != post_neuron {
                    let _id: SynapseId = FeedForwardNetwork::create_synapse(
                        pre_neuron,
                        post_neuron,
                        SynapseType::Inhibitory,
                        (INHIBITION_WEIGHT_MIN, INHIBITION_WEIGHT_MAX),
                        graph,
                    );
                    proof {
                        let weight = choose|weight: i64|
                            INHIBITION_WEIGHT_MIN <= weight <= INHIBITION_WEIGHT_MAX
                                && graph.synapses@ == before.push(
                                Some(
                                    #[trigger] built_synapse(
                                        pre_neuron,
                                        post_neuron,
                                        SynapseType::Inhibitory,
                                        weight,
                                    ),
                                ),
                            );
                        weights = weights.push(weight);
                    }
                } else {
                    proof {
                        weights = weights.push(INHIBITION_WEIGHT_MIN);
                    }
                }
                proof {
                    lemma_inhibited_prefix(start, members, known, weights, (a * n + b) as nat);
                }
                b = b + 1;
            }
            assert(a * n + n == (a + 1) * n) by (nonlinear_arith);
            a = a + 1;
        }
        self.layers.push(layer);
        proof {
            assert(self@ =~= old(self)@.push(
                id_run(old(graph).neurons@.len() as int, size_x * size_y * size_z),
            ));
            assert(members == id_run(old(graph).neurons@.len() as int, size_x * size_y * size_z));
        }
    }
}

/// Connecting only adds slots at the end, at most one to a pair, and each
/// new slot holds a built synapse from one of the sources to one of the
/// targets. With draws of the generator, a chance below zero connects no
/// pair and a chance of one or more connects every pair.
pub proof fn lemma_connected_grows(
    synapses: Seq<Option<Synapse>>,
    sources: Seq<NeuronId>,
    targets: Seq<NeuronId>,
    connection_chance: i64,
    type_ratio: i64,
    draws: Seq<ConnectionDraw>,
    k: nat,
)
    ensures
        synapses.len() <= connected(
            synapses,
            sources,
            targets,
            connection_chance,
            type_ratio,
            draws,
            k,
        ).len() <= synapses.len() + k,
        forall|j: int|
            0 <= j < synapses.len() ==> connected(
                synapses,
                sources,
                targets,
                connection_chance,
                type_ratio,
                draws,
                k,
            )[j] == synapses[j],
        forall|j: int|
            synapses.len() <= j < connected(
                synapses,
                sources,
                targets,
                connection_chance,
                type_ratio,
                draws,
                k,
            ).len() ==> joins(
                #[trigger] connected(
                    synapses,
                    sources,
                    targets,
                    connection_chance,
                    type_ratio,
                    draws,
                    k,
                )[j],
                sources,
                targets,
            ),
        connection_chance < 0 && (forall|i: int| 0 <= i < draws.len() ==> (#[trigger] draws[i]).chance >= 0)
            ==> connected(synapses, sources, targets, connection_chance, type_ratio, draws, k)
            == synapses,
        connection_chance >= MAX_DRAW && k <= draws.len() && k <= sources.len() * targets.len() && (
        forall|i: int| 0 <= i < draws.len() ==> (#[trigger] draws[i]).chance <= MAX_DRAW)
            ==> connected(
            synapses,
            sources,
            targets,
            connection_chance,
            type_ratio,
            draws,
            k,
        ).len() == synapses.len() + k,
    decreases k,
{
    if k > 0 && targets.len() > 0 {
        lemma_connected_grows(
            synapses,
            sources,
            targets,
            connection_chance,
            type_ratio,
            draws,
            (k - 1) as nat,
        );
        let pair = k - 1;
        let n = targets.len() as int;
        assert(0 <= pair % n < n) by (nonlinear_arith)
            requires
                pair >= 0,
                n > 0,
        ;
        assert(pair / n >= 0) by (nonlinear_arith)
            requires
                pair >= 0,
                n > 0,
        ;
        if k <= sources.len() * targets.len() {
            assert(pair / n < sources.len()) by (nonlinear_arith)
                requires
                    0 <= pair < sources.len() * n,
                    n > 0,
            ;
        }
        if pair < draws.len() && pair / n < sources.len() {
            assert(sources.contains(sources[pair / n]));
            assert(targets.contains(targets[pair % n]));
        }
    } else if k > 0 {
        assert(sources.len() * targets.len() == 0) by (nonlinear_arith)
            requires
                targets.len() == 0,
        ;
    }
}

/// Whether a slot holds a built synapse from one of `sources` to one of
/// `targets`.
pub open spec fn joins(slot: Option<Synapse>, sources: Seq<NeuronId>, targets: Seq<NeuronId>) -> bool {
    match slot {
        Some(Synapse::Stdp(s)) => {
            &&& Synapse::Stdp(s) == built_synapse(s.source, s.target, s.synapse_type, s.weight)
            &&& sources.contains(s.source)
            &&& targets.contains(s.target)
        },
        _ => false,
    }
}

/// The slots after the first `k` pairs depend only on the first `k`
/// weights.
pub proof fn lemma_inhibited_prefix(
    synapses: Seq<Option<Synapse>>,
    members: Seq<NeuronId>,
    shorter: Seq<i64>,
    longer: Seq<i64>,
    k: nat,
)
    requires
        k <= shorter.len() <= longer.len(),
        forall|i: int| 0 <= i < k ==> shorter[i] == longer[i],
    ensures
        inhibited(synapses, members, shorter, k) == inhibited(synapses, members, longer, k),
    decreases k,
{
    if k > 0 && members.len() > 0 {
        lemma_inhibited_prefix(synapses, members, shorter, longer, (k - 1) as nat);
    }
}

/// The layer of the neuron in place `k` of a mini column: four neurons of
/// the first layer, twenty-five each of the second and third, sixteen each
/// of the fourth and fifth, and nine of the sixth.
pub open spec fn mini_column_layer(k: int) -> ColumnLayer {
    if k < 4 {
        ColumnLayer::L1
    } else if k < 29 {
        ColumnLayer::L2
    } else if k < 54 {
        ColumnLayer::L3
    } else if k < 70 {
        ColumnLayer::L4
    } else if k < 86 {
        ColumnLayer::L5
    } else {
        ColumnLayer::L6
    }
}

/// The layer of the neuron in place `k` of a test column: four neurons of
/// the first layer, then four of the fourth.
pub open spec fn test_column_layer(k: int) -> ColumnLayer {
    if k < 4 {
        ColumnLayer::L1
    } else {
        ColumnLayer::L4
    }
}

/// A column of six layers of unconnected neurons.
#[derive(Clone, Copy, Debug)]
pub struct MiniColumn;

impl MiniColumn {
    /// Adds the ninety-five neurons of a mini column to the graph, layer by
    /// layer: blocks of 2 by 2, 5 by 5, 5 by 5, 4 by 4, 4 by 4 and 3 by 3.
    pub fn create(graph: &mut SimulationGraph)
        ensures
            final(graph).synapses@ == old(graph).synapses@,
            final(graph).neurons@.len() == old(graph).neurons@.len() + 95,
            forall|i: int| 0 <= i < old(graph).neurons@.len() ==> #[trigger] final(graph).neurons@[i] == old(graph).neurons@[i],
            forall|i: int|
                old(graph).neurons@.len() <= i < final(graph).neurons@.len() ==> built_entry(
                    #[trigger] final(graph).neurons@[i],
                    mini_column_layer(i - old(graph).neurons@.len()),
                ),
    {
        let _l1: Vec<NeuronId> = add_neuron_block(graph, 2, 2, 1, ColumnLayer::L1);
        let _l2: Vec<NeuronId> = add_neuron_block(graph, 5, 5, 1, ColumnLayer::L2);
        let _l3: Vec<NeuronId> = add_neuron_block(graph, 5, 5, 1, ColumnLayer::L3);
        let _l4: Vec<NeuronId> = add_neuron_block(graph, 4, 4, 1, ColumnLayer::L4);
        let _l5: Vec<NeuronId> = add_neuron_block(graph, 4, 4, 1, ColumnLayer::L5);
        let _l6: Vec<NeuronId> = add_neuron_block(graph, 3, 3, 1, ColumnLayer::L6);
    }
}

/// A small column of two layers of unconnected neurons.
#[derive(Clone, Copy, Debug)]
pub struct TestColumn {}

impl TestColumn {
    /// Adds the eight neurons of a test column to the graph: a block of 2 by
    /// 2 of the first layer, then one of the fourth.
    pub fn create(graph: &mut SimulationGraph)
        ensures
            final(graph).synapses@ == old(graph).synapses@,
            final(graph).neurons@.len() == old(graph).neurons@.len() + 8,
            forall|i: int| 0 <= i < old(graph).neurons@.len() ==> #[trigger] final(graph).neurons@[i] == old(graph).neurons@[i],
            forall|i: int|
                old(graph).neurons@.len() <= i < final(graph).neurons@.len() ==> built_entry(
                    #[trigger] final(graph).neurons@[i],
                    test_column_layer(i - old(graph).neurons@.len()),
                ),
    {
        let _l1: Vec<NeuronId> = add_neuron_block(graph, 2, 2, 1, ColumnLayer::L1);
        let _l4: Vec<NeuronId> = add_neuron_block(graph, 2, 2, 1, ColumnLayer::L4);
    }
}

} // verus!
