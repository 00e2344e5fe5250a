use silicon::fixed::SCALE;
use silicon::graph::{
    decay_synapses, prune_synapses, update_neurons, update_synapses, update_synapses_for_spikes,
    Simulation, SimulationGraph, SpikeEvent, PRUNE_THRESHOLD,
};
use silicon::neurons::{IzhikevichNeuron, LifNeuron, Neuron};
use silicon::recorder::SimpleSpikeRecorder;
use silicon::structure::ColumnLayer;
use silicon::synapses::{
    DeferredStdpEvent, SimpleSynapse, StdpParams, StdpSpikeType, StdpSynapse, Synapse,
    SynapseDecay, SynapseType,
};
use silicon::time::Clock;

fn lif(potential: i64) -> Neuron {
    Neuron::Lif(LifNeuron {
        membrane_potential: potential,
        reset_potential: -90 * SCALE,
        threshold_potential: -55 * SCALE,
        resistance: SCALE,
        resting_potential: -70 * SCALE,
        refractory_period: 200_000,
        refractory_counter: 0,
    })
}

fn izhikevich(v: i64) -> Neuron {
    Neuron::Izhikevich(IzhikevichNeuron {
        a: 20_000,
        b: 200_000,
        c: -100 * SCALE,
        d: 8 * SCALE,
        v,
        u: -14 * SCALE,
        synapse_weight_multiplier: 80 * SCALE,
    })
}

fn simple(source: usize, target: usize, weight: i64, kind: SynapseType) -> Synapse {
    Synapse::Simple(SimpleSynapse::new(source, target, weight, 1, kind))
}

fn stdp(source: usize, target: usize, weight: i64) -> Synapse {
    let params = StdpParams::new(10_000, -10_000, 20_000, 20_000, SCALE, 0).unwrap();
    Synapse::Stdp(StdpSynapse::new(source, target, weight, 1, SynapseType::Excitatory, params))
}

fn running_clock() -> Clock {
    let mut clock = Clock::new(25_000).unwrap();
    clock.time_to_simulate = 10 * SCALE;
    clock
}

fn trace(graph: &SimulationGraph, id: usize) -> (i64, StdpSpikeType) {
    match graph.get_synapse(id) {
        Some(Synapse::Stdp(s)) => (s.stdp_state.a, s.stdp_state.spike_type),
        _ => panic!("no plastic synapse in slot {}", id),
    }
}

#[test]
fn identifiers_are_positions_in_order_of_creation() {
    let mut g = SimulationGraph::new();
    assert_eq!(g.add_neuron(lif(-70 * SCALE), ColumnLayer::L1, None), 0);
    assert_eq!(g.add_neuron(lif(-60 * SCALE), ColumnLayer::L2, None), 1);
    assert_eq!(g.add_synapse(simple(0, 1, 500_000, SynapseType::Excitatory)), 0);
    assert_eq!(g.add_synapse(simple(1, 0, 500_000, SynapseType::Excitatory)), 1);
    assert_eq!(g.get_potential(0), Some(-70 * SCALE));
    assert_eq!(g.get_potential(1), Some(-60 * SCALE));
    assert_eq!(g.get_potential(2), None);
    assert!(g.get_synapse(1).is_some());
    assert!(g.get_synapse(2).is_none());
}

#[test]
fn injection_reaches_only_the_named_neuron() {
    let mut g = SimulationGraph::new();
    g.add_neuron(lif(-70 * SCALE), ColumnLayer::L1, None);
    g.add_neuron(izhikevich(-70 * SCALE), ColumnLayer::L1, None);
    assert_eq!(g.inject_current(0, 20 * SCALE), Some(-50 * SCALE));
    assert_eq!(g.inject_current(1, 500_000), Some(-30 * SCALE));
    assert_eq!(g.inject_current(2, 500_000), None);
    assert_eq!(g.get_potential(0), Some(-50 * SCALE));
    assert_eq!(g.get_potential(1), Some(-30 * SCALE));
}

#[test]
fn light_synapse_is_pruned() {
    let mut g = SimulationGraph::new();
    let light = g.add_synapse(simple(0, 1, 50_000, SynapseType::Excitatory));
    prune_synapses(&mut g);
    assert!(g.get_synapse(light).is_none());
}

#[test]
fn pruning_keeps_the_others_and_their_identifiers() {
    assert_eq!(PRUNE_THRESHOLD, 100_000);
    let mut g = SimulationGraph::new();
    let a = g.add_synapse(simple(0, 1, 99_999, SynapseType::Excitatory));
    let b = g.add_synapse(simple(0, 1, 100_000, SynapseType::Excitatory));
    let c = g.add_synapse(stdp(0, 1, 50_000));
    let d = g.add_synapse(stdp(0, 1, 300_000));
    prune_synapses(&mut g);
    assert!(g.get_synapse(a).is_none());
    assert_eq!(g.get_synapse(b).map(|s| s.get_weight()), Some(100_000));
    assert!(g.get_synapse(c).is_none());
    assert_eq!(g.get_synapse(d).map(|s| s.get_weight()), Some(300_000));
    prune_synapses(&mut g);
    assert_eq!(g.synapses.len(), 4);
    assert_eq!(g.add_synapse(simple(0, 1, SCALE, SynapseType::Excitatory)), 4);
}

#[test]
fn synapses_decay_their_traces_each_tick() {
    let mut g = SimulationGraph::new();
    let s = g.add_synapse(stdp(0, 1, 300_000));
    let t = g.add_synapse(simple(0, 1, 300_000, SynapseType::Excitatory));
    if let Some(Synapse::Stdp(inner)) = &mut g.synapses[s] {
        inner.register_pre_spike();
    }
    let clock = running_clock();
    update_synapses(&mut g, &clock);
    assert_eq!(trace(&g, s), (9_750, StdpSpikeType::PreSpike));
    assert_eq!(g.get_synapse(t).map(|x| x.get_weight()), Some(300_000));
}

#[test]
fn firing_does_not_reach_other_neurons_in_the_integration_pass() {
    let mut g = SimulationGraph::new();
    let a = g.add_neuron(lif(-50 * SCALE), ColumnLayer::L1, Some(SimpleSpikeRecorder::new(10)));
    let b = g.add_neuron(lif(-60 * SCALE), ColumnLayer::L1, Some(SimpleSpikeRecorder::new(10)));
    g.add_synapse(simple(a, b, 500_000, SynapseType::Excitatory));
    let mut clock = running_clock();
    clock.time = 25_000;
    let mut spikes: Vec<SpikeEvent> = Vec::new();
    let mut deferred: Vec<DeferredStdpEvent> = Vec::new();

    update_neurons(&clock, &mut g, &mut spikes, &mut deferred);
    assert_eq!(g.get_potential(a), Some(-90 * SCALE));
    assert_eq!(g.get_potential(b), Some(-60_250_000));
    assert_eq!(spikes.len(), 1);
    assert_eq!((spikes[0].time, spikes[0].neuron), (25_000, a));
    assert!(deferred.is_empty());

    update_synapses_for_spikes(&mut g, &mut spikes);
    assert_eq!(g.get_potential(a), Some(-90 * SCALE));
    assert_eq!(g.get_potential(b), Some(-59_750_000));
    assert!(spikes.is_empty());

    update_synapses_for_spikes(&mut g, &mut spikes);
    assert_eq!(g.get_potential(b), Some(-59_750_000));
}

#[test]
fn firing_in_a_later_position_does_not_reach_an_earlier_neuron_either() {
    let mut g = SimulationGraph::new();
    let b = g.add_neuron(lif(-60 * SCALE), ColumnLayer::L1, None);
    let a = g.add_neuron(lif(-50 * SCALE), ColumnLayer::L1, None);
    g.add_synapse(simple(a, b, 500_000, SynapseType::Excitatory));
    let clock = running_clock();
    let mut spikes: Vec<SpikeEvent> = Vec::new();
    let mut deferred: Vec<DeferredStdpEvent> = Vec::new();
    update_neurons(&clock, &mut g, &mut spikes, &mut deferred);
    assert_eq!(g.get_potential(b), Some(-60_250_000));
    update_synapses_for_spikes(&mut g, &mut spikes);
    assert_eq!(g.get_potential(b), Some(-59_750_000));
}

#[test]
fn inhibitory_synapse_lowers_the_target() {
    let mut g = SimulationGraph::new();
    let a = g.add_neuron(lif(-50 * SCALE), ColumnLayer::L1, None);
    let b = g.add_neuron(izhikevich(-70 * SCALE), ColumnLayer::L1, None);
    g.add_synapse(simple(a, b, 500_000, SynapseType::Inhibitory));
    let mut spikes = vec![SpikeEvent { time: 0, neuron: a }];
    update_synapses_for_spikes(&mut g, &mut spikes);
    assert_eq!(g.get_potential(b), Some(-110 * SCALE));
}

#[test]
fn synapse_toward_a_missing_neuron_is_skipped() {
    let mut g = SimulationGraph::new();
    let a = g.add_neuron(lif(-50 * SCALE), ColumnLayer::L1, None);
    g.add_synapse(simple(a, 7, 500_000, SynapseType::Excitatory));
    g.add_synapse(simple(a, a, 500_000, SynapseType::Excitatory));
    let mut spikes = vec![SpikeEvent { time: 0, neuron: a }];
    update_synapses_for_spikes(&mut g, &mut spikes);
    assert_eq!(g.get_potential(a), Some(-49_500_000));
    assert!(spikes.is_empty());
}

#[test]
fn every_spike_in_the_queue_is_delivered_in_order() {
    let mut g = SimulationGraph::new();
    let a = g.add_neuron(lif(-70 * SCALE), ColumnLayer::L1, None);
    let b = g.add_neuron(lif(-70 * SCALE), ColumnLayer::L1, None);
    g.add_synapse(simple(a, b, 500_000, SynapseType::Excitatory));
    g.add_synapse(simple(a, b, 250_000, SynapseType::Excitatory));
    g.add_synapse(simple(b, a, SCALE, SynapseType::Inhibitory));
    let mut spikes = vec![
        SpikeEvent { time: 0, neuron: a },
        SpikeEvent { time: 0, neuron: b },
        SpikeEvent { time: 0, neuron: a },
    ];
    update_synapses_for_spikes(&mut g, &mut spikes);
    assert_eq!(g.get_potential(b), Some(-68_500_000));
    assert_eq!(g.get_potential(a), Some(-71 * SCALE));
}

#[test]
fn fired_neuron_records_the_time_of_the_clock() {
    let mut g = SimulationGraph::new();
    g.add_neuron(lif(-50 * SCALE), ColumnLayer::L1, Some(SimpleSpikeRecorder::new(10)));
    g.add_neuron(lif(-60 * SCALE), ColumnLayer::L1, Some(SimpleSpikeRecorder::new(10)));
    let mut clock = running_clock();
    clock.time = 75_000;
    let mut spikes: Vec<SpikeEvent> = Vec::new();
    let mut deferred: Vec<DeferredStdpEvent> = Vec::new();
    update_neurons(&clock, &mut g, &mut spikes, &mut deferred);
    assert_eq!(g.neurons[0].recorder.as_ref().unwrap().get_spikes(), vec![75_000]);
    assert!(g.neurons[1].recorder.as_ref().unwrap().get_spikes().is_empty());
    assert_eq!(g.neurons[0].layer, ColumnLayer::L1);
}

#[test]
fn paused_clock_stops_integration() {
    let mut g = SimulationGraph::new();
    g.add_neuron(lif(-50 * SCALE), ColumnLayer::L1, None);
    let clock = Clock::new(25_000).unwrap();
    let mut spikes: Vec<SpikeEvent> = Vec::new();
    let mut deferred: Vec<DeferredStdpEvent> = Vec::new();
    update_neurons(&clock, &mut g, &mut spikes, &mut deferred);
    assert_eq!(g.get_potential(0), Some(-50 * SCALE));
    assert!(spikes.is_empty());
}

#[test]
fn firing_is_registered_on_every_plastic_synapse_of_the_neuron() {
    let mut g = SimulationGraph::new();
    let a = g.add_neuron(lif(-50 * SCALE), ColumnLayer::L1, None);
    let b = g.add_neuron(lif(-70 * SCALE), ColumnLayer::L1, None);
    let c = g.add_neuron(lif(-70 * SCALE), ColumnLayer::L1, None);
    let ab = g.add_synapse(stdp(a, b, 300_000));
    let ac = g.add_synapse(stdp(a, c, 300_000));
    let ba = g.add_synapse(stdp(b, a, 300_000));
    let bc = g.add_synapse(stdp(b, c, 300_000));
    let still = g.add_synapse(simple(a, b, 300_000, SynapseType::Excitatory));
    let clock = running_clock();
    let mut spikes: Vec<SpikeEvent> = Vec::new();
    let mut deferred: Vec<DeferredStdpEvent> = Vec::new();
    update_neurons(&clock, &mut g, &mut spikes, &mut deferred);
    assert_eq!(trace(&g, ab), (10_000, StdpSpikeType::PreSpike));
    assert_eq!(trace(&g, ac), (10_000, StdpSpikeType::PreSpike));
    assert_eq!(trace(&g, ba), (-10_000, StdpSpikeType::PostSpike));
    assert_eq!(trace(&g, bc), (0, StdpSpikeType::PreSpike));
    assert_eq!(g.get_synapse(still).map(|s| s.get_weight()), Some(300_000));
    assert!(deferred.is_empty());
}

#[test]
fn causal_pairing_queues_a_deferred_event() {
    let mut g = SimulationGraph::new();
    let a = g.add_neuron(lif(-50 * SCALE), ColumnLayer::L1, None);
    let b = g.add_neuron(lif(-50 * SCALE), ColumnLayer::L1, None);
    let ab = g.add_synapse(stdp(a, b, 300_000));
    let ba = g.add_synapse(stdp(b, a, 300_000));
    let clock = running_clock();
    let mut spikes: Vec<SpikeEvent> = Vec::new();
    let mut deferred: Vec<DeferredStdpEvent> = Vec::new();
    update_neurons(&clock, &mut g, &mut spikes, &mut deferred);
    assert_eq!(spikes.len(), 2);
    assert_eq!(deferred.len(), 2);
    assert_eq!((deferred[0].synapse, deferred[0].delta_weight), (ba, -10_000));
    assert_eq!((deferred[1].synapse, deferred[1].delta_weight), (ab, 10_000));
    assert_eq!(trace(&g, ab), (-10_000, StdpSpikeType::PostSpike));
    assert_eq!(trace(&g, ba), (10_000, StdpSpikeType::PreSpike));
}

#[test]
fn synapse_onto_its_own_neuron_registers_pre_then_post() {
    let mut g = SimulationGraph::new();
    let a = g.add_neuron(lif(-50 * SCALE), ColumnLayer::L1, None);
    let aa = g.add_synapse(stdp(a, a, 300_000));
    let clock = running_clock();
    let mut spikes: Vec<SpikeEvent> = Vec::new();
    let mut deferred: Vec<DeferredStdpEvent> = Vec::new();
    update_neurons(&clock, &mut g, &mut spikes, &mut deferred);
    assert_eq!(deferred.len(), 1);
    assert_eq!((deferred[0].synapse, deferred[0].delta_weight), (aa, 10_000));
    assert_eq!(trace(&g, aa), (-10_000, StdpSpikeType::PostSpike));
}

#[test]
fn tick_runs_the_stages_in_order() {
    let mut g = SimulationGraph::new();
    let a = g.add_neuron(lif(-50 * SCALE), ColumnLayer::L1, Some(SimpleSpikeRecorder::new(10)));
    let b = g.add_neuron(lif(-60 * SCALE), ColumnLayer::L1, None);
    let ab = g.add_synapse(stdp(a, b, 500_000));
    let light = g.add_synapse(simple(a, b, 50_000, SynapseType::Excitatory));
    let mut sim = Simulation::new(running_clock(), g);
    assert!(sim.tick());
    assert_eq!(sim.clock.time, 25_000);
    assert_eq!(sim.graph.get_potential(a), Some(-90 * SCALE));
    assert_eq!(sim.graph.get_potential(b), Some(-59_700_000));
    assert!(sim.spikes.is_empty());
    assert_eq!(trace(&sim.graph, ab), (9_750, StdpSpikeType::PreSpike));
    assert!(sim.graph.get_synapse(light).is_none());
    assert_eq!(sim.graph.neurons[a].recorder.as_ref().unwrap().get_spikes(), vec![25_000]);
}

#[test]
fn tick_without_budget_changes_nothing() {
    let mut g = SimulationGraph::new();
    let a = g.add_neuron(lif(-50 * SCALE), ColumnLayer::L1, None);
    let light = g.add_synapse(simple(a, a, 50_000, SynapseType::Excitatory));
    let mut sim = Simulation::new(Clock::new(25_000).unwrap(), g);
    assert!(!sim.tick());
    assert_eq!(sim.clock.time, 0);
    assert_eq!(sim.graph.get_potential(a), Some(-50 * SCALE));
    assert!(sim.graph.get_synapse(light).is_some());
}

#[test]
fn tick_that_uses_up_the_budget_is_paused() {
    let mut g = SimulationGraph::new();
    let a = g.add_neuron(lif(-50 * SCALE), ColumnLayer::L1, None);
    let mut clock = Clock::new(25_000).unwrap();
    clock.time_to_simulate = 50_000;
    let mut sim = Simulation::new(clock, g);
    assert!(sim.tick());
    assert_eq!(sim.graph.get_potential(a), Some(-90 * SCALE));
    assert!(!sim.tick());
    assert_eq!(sim.clock.time, 50_000);
    assert!(!sim.tick());
    assert_eq!(sim.clock.time, 50_000);
}

#[test]
fn driven_neuron_fires_exactly_once_in_five_ticks() {
    let mut g = SimulationGraph::new();
    let a = g.add_neuron(lif(-70 * SCALE), ColumnLayer::L1, Some(SimpleSpikeRecorder::new(10)));
    let mut sim = Simulation::new(running_clock(), g);
    for _ in 0..5 {
        sim.graph.inject_current(a, 20 * SCALE);
        assert!(sim.tick());
    }
    assert_eq!(sim.graph.neurons[a].recorder.as_ref().unwrap().get_spikes(), vec![25_000]);
    assert_eq!(sim.graph.get_potential(a), Some(-10 * SCALE));
}

#[test]
fn neuron_rests_at_reset_while_refractory() {
    let mut g = SimulationGraph::new();
    let a = g.add_neuron(lif(-70 * SCALE), ColumnLayer::L1, Some(SimpleSpikeRecorder::new(10)));
    let mut sim = Simulation::new(running_clock(), g);
    sim.graph.inject_current(a, 20 * SCALE);
    assert!(sim.tick());
    for _ in 0..8 {
        assert_eq!(sim.graph.get_potential(a), Some(-90 * SCALE));
        assert!(sim.tick());
    }
    assert_eq!(sim.graph.get_potential(a), Some(-90 * SCALE));
    assert!(sim.tick());
    assert_eq!(sim.graph.get_potential(a), Some(-89_500_000));
    assert_eq!(sim.graph.neurons[a].recorder.as_ref().unwrap().get_spikes(), vec![25_000]);
}

#[test]
fn decay_weakens_every_synapse_when_due() {
    let mut g = SimulationGraph::new();
    let s = g.add_synapse(simple(0, 1, 300_000, SynapseType::Excitatory));
    let t = g.add_synapse(stdp(0, 1, 50));
    let mut decay = SynapseDecay { interval: SCALE, amount: 100, next_decay: SCALE };
    let mut clock = running_clock();
    clock.time = 500_000;
    decay_synapses(&mut g, &clock, &mut decay);
    assert_eq!(g.get_synapse(s).map(|x| x.get_weight()), Some(300_000));
    assert_eq!(decay.next_decay, SCALE);
    clock.time = SCALE;
    decay_synapses(&mut g, &clock, &mut decay);
    assert_eq!(g.get_synapse(s).map(|x| x.get_weight()), Some(299_900));
    assert_eq!(g.get_synapse(t).map(|x| x.get_weight()), Some(0));
    assert_eq!(decay.next_decay, 2 * SCALE);
}
