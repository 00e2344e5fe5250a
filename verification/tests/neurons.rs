use silicon::fixed::SCALE;
use silicon::neurons::{refit_to_range, IzhikevichNeuron, LifNeuron, Neuron};

fn lif(potential: i64) -> LifNeuron {
    LifNeuron {
        membrane_potential: potential,
        reset_potential: -90 * SCALE,
        threshold_potential: -55 * SCALE,
        resistance: 1_300_000,
        resting_potential: -70 * SCALE,
        refractory_period: 90_000,
        refractory_counter: 0,
    }
}

fn izhikevich(v: i64) -> IzhikevichNeuron {
    IzhikevichNeuron {
        a: 20_000,
        b: 200_000,
        c: -100 * SCALE,
        d: 8 * SCALE,
        v,
        u: -14 * SCALE,
        synapse_weight_multiplier: 80 * SCALE,
    }
}

#[test]
fn lif_neuron_at_rest_stays_at_rest() {
    let mut n = lif(-70 * SCALE);
    assert!(!n.update(25_000));
    assert_eq!(n.get_membrane_potential(), -70 * SCALE);
}

#[test]
fn lif_leak_moves_toward_rest_from_above() {
    let mut n = lif(-60 * SCALE);
    assert!(!n.update(25_000));
    assert_eq!(n.get_membrane_potential(), -60_250_000);
    assert!(!n.update(25_000));
    assert_eq!(n.get_membrane_potential(), -60_493_750);
    assert!(!n.update(25_000));
    assert_eq!(n.get_membrane_potential(), -60_731_406);
}

#[test]
fn lif_leak_moves_toward_rest_from_below() {
    let mut n = lif(-80 * SCALE);
    let mut last = n.get_membrane_potential();
    for _ in 0..200 {
        assert!(!n.update(25_000));
        let now = n.get_membrane_potential();
        assert!(last <= now && now <= -70 * SCALE);
        last = now;
    }
    assert!(last > -80 * SCALE);
}

#[test]
fn lif_with_a_step_of_one_reaches_rest_at_once() {
    let mut n = lif(-60 * SCALE);
    assert!(!n.update(SCALE));
    assert_eq!(n.get_membrane_potential(), -70 * SCALE);
}

#[test]
fn lif_fires_above_threshold_and_resets() {
    let mut n = lif(-50 * SCALE);
    assert!(n.update(25_000));
    assert_eq!(n.membrane_potential, -90 * SCALE);
    assert_eq!(n.refractory_counter, 90_000);
}

#[test]
fn lif_at_threshold_does_not_fire() {
    let mut n = lif(-55 * SCALE);
    n.resting_potential = -55 * SCALE;
    assert!(!n.update(25_000));
    assert_eq!(n.membrane_potential, -55 * SCALE);
}

#[test]
fn lif_counts_down_while_refractory() {
    let mut n = lif(-50 * SCALE);
    assert!(n.update(25_000));
    let mut ticks = 0;
    while n.refractory_counter > 0 {
        assert!(!n.update(25_000));
        assert_eq!(n.membrane_potential, -90 * SCALE);
        ticks += 1;
    }
    assert_eq!(ticks, 4);
    assert_eq!(n.refractory_counter, -10_000);
    assert!(!n.update(25_000));
    assert_eq!(n.membrane_potential, -89_500_000);
}

#[test]
fn lif_fires_once_under_constant_drive() {
    let mut n = lif(-70 * SCALE);
    let mut fired = 0;
    for _ in 0..5 {
        n.add_membrane_potential(20 * SCALE);
        if n.update(25_000) {
            fired += 1;
            assert_eq!(n.membrane_potential, -90 * SCALE);
        }
    }
    assert_eq!(fired, 1);
    assert_eq!(n.refractory_counter, -10_000);
}

#[test]
fn lif_injection_adds_at_once() {
    let mut n = lif(-70 * SCALE);
    assert_eq!(n.add_membrane_potential(20 * SCALE), -50 * SCALE);
    assert_eq!(n.add_membrane_potential(-5 * SCALE), -55 * SCALE);
    assert_eq!(n.get_membrane_potential(), -55 * SCALE);
}

#[test]
fn lif_activation_is_the_share_of_the_way_to_threshold() {
    assert_eq!(lif(-60 * SCALE).activation_percent(), 666_666);
    assert_eq!(lif(-70 * SCALE).activation_percent(), 0);
    assert_eq!(lif(-55 * SCALE).activation_percent(), SCALE);
    assert_eq!(lif(-80 * SCALE).activation_percent(), SCALE);
}

#[test]
fn refit_carries_a_range_over() {
    assert_eq!(refit_to_range(5 * SCALE, 0, 10 * SCALE, 0, 100 * SCALE), 50 * SCALE);
    assert_eq!(refit_to_range(-60 * SCALE, -70 * SCALE, -55 * SCALE, 0, SCALE), 666_666);
    assert_eq!(refit_to_range(SCALE, 0, 0, 0, SCALE), i64::MAX);
}

#[test]
fn izhikevich_rests_at_its_fixed_point() {
    let mut n = izhikevich(-70 * SCALE);
    assert!(!n.update(25_000));
    assert_eq!((n.v, n.u), (-70 * SCALE, -14 * SCALE));
}

#[test]
fn izhikevich_steps_both_variables_from_their_old_values() {
    let mut n = izhikevich(-60 * SCALE);
    assert!(!n.update(25_000));
    assert_eq!((n.v, n.u), (-60_050_000, -13_999_000));
    let mut m = izhikevich(-30 * SCALE);
    assert!(!m.update(25_000));
    assert_eq!((m.v, m.u), (-29_000_000, -13_996_000));
}

#[test]
fn izhikevich_fires_at_thirty_and_resets() {
    let mut n = izhikevich(29 * SCALE);
    assert!(n.update(25_000));
    assert_eq!((n.v, n.u), (-100 * SCALE, -5_990_100));
    let mut m = izhikevich(66 * SCALE);
    assert!(m.update(25_000));
    assert_eq!((m.v, m.u), (-100 * SCALE, -5_986_400));
}

#[test]
fn izhikevich_saturates_instead_of_overflowing() {
    let mut n = izhikevich(i64::MAX);
    n.u = 0;
    assert!(n.update(25_000));
    assert_eq!((n.v, n.u), (-100 * SCALE, 922_337_211_685_477));
}

#[test]
fn izhikevich_injection_is_scaled_by_the_multiplier() {
    let mut n = izhikevich(-70 * SCALE);
    assert_eq!(n.add_membrane_potential(1_700_000), 66 * SCALE);
    assert_eq!(n.add_membrane_potential(-500_000), 26 * SCALE);
    assert_eq!(n.get_membrane_potential(), 26 * SCALE);
}

#[test]
fn izhikevich_activation_is_measured_from_minus_sixty_five() {
    assert_eq!(izhikevich(-50 * SCALE).activation_percent(), 500_000);
    assert_eq!(izhikevich(-65 * SCALE).activation_percent(), 0);
    assert_eq!(izhikevich(-35 * SCALE).activation_percent(), SCALE);
    assert_eq!(izhikevich(-66 * SCALE).activation_percent(), SCALE);
}

#[test]
fn neuron_dispatches_to_its_model() {
    let mut a = Neuron::Lif(lif(-50 * SCALE));
    let mut b = Neuron::Izhikevich(izhikevich(-70 * SCALE));
    assert_eq!(a.get_membrane_potential(), -50 * SCALE);
    assert_eq!(b.insert_current(500_000), -30 * SCALE);
    assert!(a.update(25_000));
    assert!(!b.update(25_000));
    assert_eq!(a.get_membrane_potential(), -90 * SCALE);
    assert_eq!(b.get_membrane_potential(), -29_000_000);
    assert_eq!(a.activation_percent(), SCALE);
}

#[test]
fn new_lif_neuron_rests_with_the_usual_parameters() {
    let mut n = LifNeuron::new();
    assert_eq!(n.membrane_potential, -70 * SCALE);
    assert_eq!(n.resting_potential, -70 * SCALE);
    assert_eq!(n.reset_potential, -90 * SCALE);
    assert_eq!(n.threshold_potential, -55 * SCALE);
    assert_eq!(n.resistance, 1_300_000);
    assert_eq!(n.refractory_period, 90_000);
    assert_eq!(n.refractory_counter, 0);
    n.set_membrane_potential(-50 * SCALE);
    assert_eq!(n.get_membrane_potential(), -50 * SCALE);
    assert!(n.update(25_000));
}
