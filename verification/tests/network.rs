use silicon::fixed::SCALE;
use silicon::graph::SimulationGraph;
use silicon::network::{
    add_neuron_block, default_neuron, default_stdp_params, is_connected, synapse_type_for,
    ConnectionDraw, FeedForwardNetwork, MiniColumn, TestColumn, CONNECTION_WEIGHT_MAX,
    CONNECTION_WEIGHT_MIN, INHIBITION_WEIGHT_MAX, INHIBITION_WEIGHT_MIN,
};
use silicon::neurons::Neuron;
use silicon::structure::ColumnLayer;
use silicon::synapses::{StdpSpikeType, StdpSynapse, Synapse, SynapseType};

fn plastic(graph: &SimulationGraph, id: usize) -> StdpSynapse {
    match graph.get_synapse(id) {
        Some(Synapse::Stdp(s)) => s,
        _ => panic!("no plastic synapse in slot {}", id),
    }
}

fn layers_of(graph: &SimulationGraph) -> Vec<ColumnLayer> {
    graph.neurons.iter().map(|e| e.layer).collect()
}

#[test]
fn built_neuron_has_the_standard_parameters() {
    match default_neuron() {
        Neuron::Izhikevich(n) => {
            assert_eq!((n.v, n.u), (-70 * SCALE, -14 * SCALE));
            assert_eq!((n.a, n.b, n.c, n.d), (20_000, 200_000, -100 * SCALE, 8 * SCALE));
            assert_eq!(n.synapse_weight_multiplier, 80 * SCALE);
        }
        Neuron::Lif(_) => panic!("the builders create Izhikevich neurons"),
    }
    let p = default_stdp_params();
    assert_eq!((p.a_plus, p.a_minus, p.tau_plus, p.tau_minus), (10_000, -10_000, 20_000, 20_000));
    assert_eq!((p.w_min, p.w_max), (0, SCALE));
}

#[test]
fn block_adds_the_product_of_its_sizes() {
    let mut g = SimulationGraph::new();
    assert_eq!(add_neuron_block(&mut g, 2, 3, 4, ColumnLayer::L3), (0..24).collect::<Vec<usize>>());
    assert_eq!(add_neuron_block(&mut g, 1, 1, 1, ColumnLayer::L2), vec![24]);
    assert!(add_neuron_block(&mut g, 5, 0, 5, ColumnLayer::L2).is_empty());
    assert_eq!(g.neurons.len(), 25);
    assert_eq!(g.neurons[23].layer, ColumnLayer::L3);
    assert_eq!(g.neurons[24].layer, ColumnLayer::L2);
    let recorder = g.neurons[0].recorder.as_ref().unwrap();
    assert_eq!(recorder.max_spikes(), 1000);
    assert!(recorder.get_spikes().is_empty());
    assert_eq!(g.get_potential(7), Some(-70 * SCALE));
}

#[test]
fn layers_are_numbered_in_order() {
    let mut g = SimulationGraph::new();
    let mut ffn = FeedForwardNetwork::new();
    assert_eq!(ffn.layer_count(), 0);
    ffn.add_layer(3, 3, 1, &mut g, Some(ColumnLayer::L4));
    ffn.add_layer(2, 1, 1, &mut g, None);
    assert_eq!(ffn.layer_count(), 2);
    assert_eq!(ffn.layer(0), Some(&(0..9).collect::<Vec<usize>>()));
    assert_eq!(ffn.layer(1), Some(&vec![9, 10]));
    assert_eq!(ffn.layer(2), None);
    assert_eq!(g.neurons[0].layer, ColumnLayer::L4);
    assert_eq!(g.neurons[9].layer, ColumnLayer::L1);
    assert!(g.synapses.is_empty());
}

#[test]
fn draws_decide_connection_and_type() {
    assert!(is_connected(800_000, 800_000));
    assert!(is_connected(0, 800_000));
    assert!(!is_connected(800_001, 800_000));
    assert_eq!(synapse_type_for(799_999, 800_000), SynapseType::Excitatory);
    assert_eq!(synapse_type_for(800_000, 800_000), SynapseType::Inhibitory);
    assert_eq!(synapse_type_for(0, 0), SynapseType::Inhibitory);
}

#[test]
fn created_synapse_is_plastic_with_a_weight_in_range() {
    let mut g = SimulationGraph::new();
    for k in 0..100 {
        let id = FeedForwardNetwork::create_synapse(
            3,
            4,
            SynapseType::Inhibitory,
            (100_000, 300_000),
            &mut g,
        );
        assert_eq!(id, k);
        let s = plastic(&g, id);
        assert!(100_000 <= s.weight && s.weight <= 300_000);
        assert_eq!((s.source, s.target, s.delay), (3, 4, 1));
        assert_eq!(s.synapse_type, SynapseType::Inhibitory);
        assert_eq!((s.stdp_state.a, s.stdp_state.spike_type), (0, StdpSpikeType::PreSpike));
        assert_eq!((s.stdp_params.w_min, s.stdp_params.w_max), (0, SCALE));
    }
    let first = plastic(&g, 0).weight;
    assert!((0..100).any(|id| plastic(&g, id).weight != first));
    let id = FeedForwardNetwork::create_synapse(0, 0, SynapseType::Excitatory, (7, 7), &mut g);
    assert_eq!(plastic(&g, id).weight, 7);
}

#[test]
fn full_chance_connects_every_pair_source_by_source() {
    let mut g = SimulationGraph::new();
    let mut ffn = FeedForwardNetwork::new();
    ffn.add_layer(2, 1, 1, &mut g, None);
    ffn.add_layer(3, 1, 1, &mut g, None);
    ffn.connect_layers(0, 1, SCALE, SCALE, &mut g);
    assert_eq!(g.synapses.len(), 6);
    let pairs: Vec<(usize, usize)> = (0..6).map(|id| (plastic(&g, id).source, plastic(&g, id).target)).collect();
    assert_eq!(pairs, vec![(0, 2), (0, 3), (0, 4), (1, 2), (1, 3), (1, 4)]);
    for id in 0..6 {
        let s = plastic(&g, id);
        assert_eq!(s.synapse_type, SynapseType::Excitatory);
        assert!(CONNECTION_WEIGHT_MIN <= s.weight && s.weight <= CONNECTION_WEIGHT_MAX);
    }
    assert_eq!(g.neurons.len(), 5);
}

#[test]
fn no_chance_connects_nothing() {
    let mut g = SimulationGraph::new();
    let mut ffn = FeedForwardNetwork::new();
    ffn.add_layer(3, 3, 1, &mut g, None);
    ffn.add_layer(3, 3, 1, &mut g, None);
    ffn.connect_layers(0, 1, -1, SCALE, &mut g);
    assert!(g.synapses.is_empty());
}

#[test]
fn zero_type_ratio_makes_every_synapse_inhibitory() {
    let mut g = SimulationGraph::new();
    let mut ffn = FeedForwardNetwork::new();
    ffn.add_layer(3, 3, 1, &mut g, None);
    ffn.connect_layers(0, 0, SCALE, 0, &mut g);
    assert_eq!(g.synapses.len(), 81);
    assert!((0..81).all(|id| plastic(&g, id).synapse_type == SynapseType::Inhibitory));
}

#[test]
fn partial_chance_connects_some_pairs_within_the_layers() {
    let mut g = SimulationGraph::new();
    g.add_synapse(Synapse::Stdp(plastic_seed()));
    let mut ffn = FeedForwardNetwork::new();
    ffn.add_layer(5, 4, 1, &mut g, None);
    ffn.add_layer(5, 4, 1, &mut g, None);
    ffn.connect_layers(1, 0, 500_000, 500_000, &mut g);
    let added = g.synapses.len() - 1;
    assert!(0 < added && added < 400);
    assert_eq!(plastic(&g, 0).weight, 123);
    let mut kinds = Vec::new();
    for id in 1..g.synapses.len() {
        let s = plastic(&g, id);
        assert!((20..40).contains(&s.source));
        assert!((0..20).contains(&s.target));
        assert!(CONNECTION_WEIGHT_MIN <= s.weight && s.weight <= CONNECTION_WEIGHT_MAX);
        kinds.push(s.synapse_type);
    }
    assert!(kinds.contains(&SynapseType::Excitatory));
    assert!(kinds.contains(&SynapseType::Inhibitory));
}

fn plastic_seed() -> StdpSynapse {
    StdpSynapse::new(0, 0, 123, 1, SynapseType::Excitatory, default_stdp_params())
}

#[test]
fn winner_take_all_layer_inhibits_every_other_neuron() {
    let mut g = SimulationGraph::new();
    let mut ffn = FeedForwardNetwork::new();
    ffn.add_layer(1, 1, 1, &mut g, None);
    ffn.add_wta_layer(3, 1, 1, &mut g, Some(ColumnLayer::L6));
    assert_eq!(ffn.layer(1), Some(&vec![1, 2, 3]));
    assert_eq!(g.synapses.len(), 6);
    let pairs: Vec<(usize, usize)> = (0..6).map(|id| (plastic(&g, id).source, plastic(&g, id).target)).collect();
    assert_eq!(pairs, vec![(1, 2), (1, 3), (2, 1), (2, 3), (3, 1), (3, 2)]);
    for id in 0..6 {
        let s = plastic(&g, id);
        assert_eq!(s.synapse_type, SynapseType::Inhibitory);
        assert!(INHIBITION_WEIGHT_MIN <= s.weight && s.weight <= INHIBITION_WEIGHT_MAX);
    }
    assert_eq!(g.neurons[3].layer, ColumnLayer::L6);
}

#[test]
fn winner_take_all_layer_of_one_has_no_synapse() {
    let mut g = SimulationGraph::new();
    let mut ffn = FeedForwardNetwork::new();
    ffn.add_wta_layer(1, 1, 1, &mut g, None);
    ffn.add_wta_layer(0, 1, 1, &mut g, None);
    assert!(g.synapses.is_empty());
    assert_eq!(ffn.layer_count(), 2);
    assert_eq!(g.neurons[0].layer, ColumnLayer::L1);
}

#[test]
fn mini_column_has_six_layers_of_neurons() {
    let mut g = SimulationGraph::new();
    MiniColumn::create(&mut g);
    let layers = layers_of(&g);
    assert_eq!(layers.len(), 95);
    let count = |l: ColumnLayer| layers.iter().filter(|x| **x == l).count();
    assert_eq!(count(ColumnLayer::L1), 4);
    assert_eq!(count(ColumnLayer::L2), 25);
    assert_eq!(count(ColumnLayer::L3), 25);
    assert_eq!(count(ColumnLayer::L4), 16);
    assert_eq!(count(ColumnLayer::L5), 16);
    assert_eq!(count(ColumnLayer::L6), 9);
    assert_eq!(layers[3], ColumnLayer::L1);
    assert_eq!(layers[4], ColumnLayer::L2);
    assert_eq!(layers[86], ColumnLayer::L6);
    assert!(g.synapses.is_empty());
}

#[test]
fn test_column_has_two_layers_of_four() {
    let mut g = SimulationGraph::new();
    g.add_neuron(default_neuron(), ColumnLayer::L6, None);
    TestColumn::create(&mut g);
    let layers = layers_of(&g);
    assert_eq!(layers.len(), 9);
    assert_eq!(layers[0], ColumnLayer::L6);
    assert!(layers[1..5].iter().all(|l| *l == ColumnLayer::L1));
    assert!(layers[5..9].iter().all(|l| *l == ColumnLayer::L4));
}

#[test]
fn placed_synapse_has_the_given_weight() {
    let mut g = SimulationGraph::new();
    let id = FeedForwardNetwork::place_synapse(5, 6, SynapseType::Excitatory, 250_000, &mut g);
    let s = plastic(&g, id);
    assert_eq!((s.source, s.target, s.weight, s.delay), (5, 6, 250_000, 1));
    assert_eq!(s.synapse_type, SynapseType::Excitatory);
    assert!(g.neurons.is_empty());
}

#[test]
fn draws_decide_each_pair_in_turn() {
    let mut g = SimulationGraph::new();
    let mut ffn = FeedForwardNetwork::new();
    ffn.add_layer(2, 1, 1, &mut g, None);
    ffn.add_layer(1, 2, 1, &mut g, None);
    let draw = |chance, kind, weight| ConnectionDraw { chance, kind, weight };
    let draws = vec![
        draw(900_000, 0, 111),
        draw(800_000, 799_999, 222),
        draw(0, 800_000, 333),
        draw(800_001, 0, 444),
    ];
    ffn.connect_layers_with(0, 1, 800_000, 800_000, &draws, &mut g);
    assert_eq!(g.synapses.len(), 2);
    let first = plastic(&g, 0);
    assert_eq!((first.source, first.target, first.weight), (0, 3, 222));
    assert_eq!(first.synapse_type, SynapseType::Excitatory);
    let second = plastic(&g, 1);
    assert_eq!((second.source, second.target, second.weight), (1, 2, 333));
    assert_eq!(second.synapse_type, SynapseType::Inhibitory);
}

#[test]
fn pair_without_a_draw_is_not_connected() {
    let mut g = SimulationGraph::new();
    let mut ffn = FeedForwardNetwork::new();
    ffn.add_layer(2, 2, 1, &mut g, None);
    let draws = vec![ConnectionDraw { chance: 0, kind: 0, weight: 200_000 }; 3];
    ffn.connect_layers_with(0, 0, SCALE, SCALE, &draws, &mut g);
    let pairs: Vec<(usize, usize)> = (0..g.synapses.len())
        .map(|id| (plastic(&g, id).source, plastic(&g, id).target))
        .collect();
    assert_eq!(pairs, vec![(0, 0), (0, 1), (0, 2)]);
}
