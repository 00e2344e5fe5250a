use silicon::fixed::SCALE;
use silicon::synapses::{
    SimpleSynapse, StdpParams, StdpSpikeType, StdpSynapse, Synapse, SynapseType,
};
use silicon::time::ConfigError;

fn params() -> StdpParams {
    StdpParams::new(10_000, -10_000, 20_000, 20_000, SCALE, 0).unwrap()
}

fn stdp(weight: i64) -> StdpSynapse {
    StdpSynapse::new(0, 1, weight, 1, SynapseType::Excitatory, params())
}

#[test]
fn params_refuse_inverted_bounds() {
    let r = StdpParams::new(10_000, -10_000, 20_000, 20_000, 0, SCALE);
    assert_eq!(r.err(), Some(ConfigError::InvertedWeightBounds));
}

#[test]
fn params_accept_equal_bounds() {
    let p = StdpParams::new(1, 2, 3, 4, 5, 5).unwrap();
    assert_eq!((p.a_plus, p.a_minus, p.tau_plus, p.tau_minus, p.w_max, p.w_min), (1, 2, 3, 4, 5, 5));
}

#[test]
fn new_synapse_has_no_trace() {
    let s = stdp(200_000);
    assert_eq!(s.stdp_state.a, 0);
    assert_eq!(s.stdp_state.spike_type, StdpSpikeType::PreSpike);
    assert_eq!(s.get_weight(), 200_000);
    assert_eq!(s.get_presynaptic(), 0);
    assert_eq!(s.get_postsynaptic(), 1);
    assert_eq!(s.get_type(), SynapseType::Excitatory);
    assert_eq!(s.delay, 1);
}

#[test]
fn default_synapse_type_is_excitatory() {
    assert_eq!(SynapseType::default(), SynapseType::Excitatory);
}

#[test]
fn pre_then_post_emits_a_plus() {
    let mut s = stdp(200_000);
    assert_eq!(s.register_pre_spike(), None);
    assert_eq!(s.stdp_state.a, 10_000);
    assert_eq!(s.register_post_spike(), Some(10_000));
    assert_eq!(s.stdp_state.a, -10_000);
    assert_eq!(s.stdp_state.spike_type, StdpSpikeType::PostSpike);
}

#[test]
fn post_then_pre_emits_a_minus() {
    let mut s = stdp(200_000);
    assert_eq!(s.register_post_spike(), None);
    assert_eq!(s.register_pre_spike(), Some(-10_000));
    assert_eq!(s.stdp_state.a, 10_000);
    assert_eq!(s.stdp_state.spike_type, StdpSpikeType::PreSpike);
}

#[test]
fn same_side_twice_emits_nothing() {
    let mut s = stdp(200_000);
    assert_eq!(s.register_pre_spike(), None);
    assert_eq!(s.register_pre_spike(), None);
    assert_eq!(s.register_post_spike(), Some(10_000));
    assert_eq!(s.register_post_spike(), None);
}

#[test]
fn pairing_emits_the_decayed_trace() {
    let mut s = stdp(200_000);
    assert_eq!(s.register_pre_spike(), None);
    s.update(25_000);
    assert_eq!(s.stdp_state.a, 9_750);
    s.update(25_000);
    assert_eq!(s.stdp_state.a, 9_506);
    s.update(25_000);
    assert_eq!(s.stdp_state.a, 9_268);
    assert_eq!(s.register_post_spike(), Some(9_268));
}

#[test]
fn negative_trace_decays_toward_zero() {
    let mut s = stdp(200_000);
    assert_eq!(s.register_post_spike(), None);
    s.update(25_000);
    assert_eq!(s.stdp_state.a, -9_750);
    s.update(25_000);
    assert_eq!(s.stdp_state.a, -9_506);
    let mut last = s.stdp_state.a;
    while last != 0 {
        s.update(25_000);
        assert!(last < s.stdp_state.a && s.stdp_state.a <= 0);
        last = s.stdp_state.a;
    }
    s.update(25_000);
    assert_eq!(s.stdp_state.a, 0);
}

#[test]
fn only_a_trace_of_zero_pairs_with_nothing() {
    let mut s = stdp(200_000);
    s.stdp_state.a = 0;
    assert_eq!(s.register_post_spike(), None);
    let mut t = stdp(200_000);
    t.stdp_state.a = 1;
    assert_eq!(t.register_post_spike(), Some(1));
    let mut u = stdp(200_000);
    u.stdp_state.a = -1;
    u.stdp_state.spike_type = StdpSpikeType::PostSpike;
    assert_eq!(u.register_pre_spike(), Some(-1));
    let mut v = stdp(200_000);
    v.stdp_state.a = 0;
    v.stdp_state.spike_type = StdpSpikeType::PostSpike;
    assert_eq!(v.register_pre_spike(), None);
}

#[test]
fn smallest_traces_pair_in_direct_succession() {
    let params = StdpParams::new(1, -1, 20_000, 20_000, SCALE, 0).unwrap();
    let mut s = StdpSynapse::new(0, 1, 200_000, 1, SynapseType::Excitatory, params);
    assert_eq!(s.register_pre_spike(), None);
    assert_eq!(s.register_post_spike(), Some(1));
    assert_eq!(s.register_pre_spike(), Some(-1));
}

#[test]
fn small_trace_decays_to_zero_and_is_forgotten() {
    let params = StdpParams::new(39, -39, 20_000, 20_000, SCALE, 0).unwrap();
    let mut s = StdpSynapse::new(0, 1, 200_000, 1, SynapseType::Excitatory, params);
    assert_eq!(s.register_pre_spike(), None);
    s.update(25_000);
    assert_eq!(s.stdp_state.a, 38);
    s.update(25_000);
    assert_eq!(s.stdp_state.a, 37);
    let mut ticks = 2;
    while s.stdp_state.a != 0 {
        s.update(25_000);
        ticks += 1;
    }
    assert_eq!(ticks, 39);
    assert_eq!(s.register_post_spike(), None);
}

#[test]
fn usual_trace_is_forgotten_after_a_few_hundred_ticks() {
    let mut s = stdp(200_000);
    assert_eq!(s.register_pre_spike(), None);
    for _ in 0..241 {
        s.update(25_000);
    }
    assert_eq!(s.stdp_state.a, 1);
    s.update(25_000);
    assert_eq!(s.stdp_state.a, 0);
    assert_eq!(s.register_post_spike(), None);
}

#[test]
fn step_of_one_forgets_the_trace_at_once_and_of_zero_keeps_it() {
    let mut s = stdp(200_000);
    assert_eq!(s.register_pre_spike(), None);
    s.update(0);
    assert_eq!(s.stdp_state.a, 10_000);
    s.update(SCALE);
    assert_eq!(s.stdp_state.a, 0);
}

#[test]
fn pairing_after_one_step_emits_less_than_a_plus() {
    let params = StdpParams::new(5, -5, 20_000, 20_000, SCALE, 0).unwrap();
    let mut s = StdpSynapse::new(0, 1, 200_000, 1, SynapseType::Excitatory, params);
    assert_eq!(s.register_pre_spike(), None);
    s.update(100_000);
    assert_eq!(s.register_post_spike(), Some(4));
}

#[test]
fn register_spike_picks_the_side() {
    let mut s = stdp(200_000);
    assert_eq!(s.register_spike(StdpSpikeType::PreSpike), None);
    assert_eq!(s.register_spike(StdpSpikeType::PostSpike), Some(10_000));
    assert_eq!(s.register_spike(StdpSpikeType::PreSpike), Some(-10_000));
}

#[test]
fn plastic_weight_is_set_within_bounds() {
    let mut s = stdp(200_000);
    s.set_weight(500_000);
    assert_eq!(s.get_weight(), 500_000);
    s.set_weight(1_500_000);
    assert_eq!(s.get_weight(), SCALE);
    s.set_weight(-1);
    assert_eq!(s.get_weight(), 0);
}

#[test]
fn rewarded_change_stays_within_bounds() {
    let mut s = stdp(200_000);
    s.apply_reward(10_000, SCALE);
    assert_eq!(s.get_weight(), 210_000);
    s.apply_reward(10_000, -SCALE);
    assert_eq!(s.get_weight(), 200_000);
    s.apply_reward(10_000, 500_000);
    assert_eq!(s.get_weight(), 205_000);
    s.apply_reward(SCALE, SCALE);
    assert_eq!(s.get_weight(), SCALE);
    s.apply_reward(2 * SCALE, -SCALE);
    assert_eq!(s.get_weight(), 0);
}

#[test]
fn static_weight_is_set_as_given() {
    let mut s = SimpleSynapse::new(3, 4, 500_000, 2, SynapseType::Inhibitory);
    s.set_weight(7 * SCALE);
    assert_eq!(s.get_weight(), 7 * SCALE);
    s.update(25_000);
    assert_eq!(s.get_weight(), 7 * SCALE);
    assert_eq!((s.get_presynaptic(), s.get_postsynaptic()), (3, 4));
    assert_eq!(s.get_type(), SynapseType::Inhibitory);
    assert_eq!(s.delay, 2);
}

#[test]
fn effect_is_signed_by_the_type() {
    let e = Synapse::Simple(SimpleSynapse::new(0, 1, 500_000, 1, SynapseType::Excitatory));
    let i = Synapse::Simple(SimpleSynapse::new(0, 1, 500_000, 1, SynapseType::Inhibitory));
    assert_eq!(e.get_effect(), 500_000);
    assert_eq!(i.get_effect(), -500_000);
    assert_eq!(e.get_weight(), 500_000);
    assert_eq!(i.get_type(), SynapseType::Inhibitory);
}

#[test]
fn synapse_dispatches_to_its_model() {
    let mut s = Synapse::Stdp(stdp(200_000));
    s.set_weight(3 * SCALE);
    assert_eq!(s.get_weight(), SCALE);
    assert_eq!((s.get_presynaptic(), s.get_postsynaptic()), (0, 1));
    if let Synapse::Stdp(inner) = &mut s {
        inner.register_pre_spike();
    }
    s.update(25_000);
    match s {
        Synapse::Stdp(inner) => assert_eq!(inner.stdp_state.a, 9_750),
        Synapse::Simple(_) => panic!("the model changed"),
    }
}
