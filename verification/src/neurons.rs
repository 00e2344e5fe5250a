//! Neuron models: leaky integrate-and-fire and Izhikevich, and the closed
//! sum of the two that the simulation steps.

use vstd::prelude::*;
use crate::fixed::{
    fixed_add, fixed_div, fixed_mul, fixed_sub, lemma_mul_by_fraction, sat_add, sat_div, sat_mul,
    sat_sub, SCALE,
};

verus! {

/// The coefficient 0.04 of the quadratic term of the Izhikevich model.
pub const QUADRATIC_COEFFICIENT: i64 = 40_000;

/// The coefficient 5 of the linear term of the Izhikevich model.
pub const LINEAR_COEFFICIENT: i64 = 5_000_000;

/// The constant term 140 of the Izhikevich model.
pub const CONSTANT_TERM: i64 = 140_000_000;

/// The potential, 30, at which an Izhikevich neuron fires.
pub const SPIKE_CUTOFF: i64 = 30_000_000;

/// The potential, -65, from which the activation of an Izhikevich neuron is
/// measured.
pub const ACTIVATION_FLOOR: i64 = -65_000_000;

/// The width, 30, of the activation range of an Izhikevich neuron.
pub const ACTIVATION_SPAN: i64 = 30_000_000;

/// `n`, taken from the range `start1..stop1`, carried over linearly to the
/// range `start2..stop2`.
pub open spec fn refit(n: i64, start1: i64, stop1: i64, start2: i64, stop2: i64) -> i64 {
    sat_add(
        sat_mul(sat_div(sat_sub(n, start1), sat_sub(stop1, start1)), sat_sub(stop2, start2)),
        start2,
    )
}

/// Carries `n` over from the range `start1..stop1` to `start2..stop2`.
pub fn refit_to_range(n: i64, start1: i64, stop1: i64, start2: i64, stop2: i64) -> (r: i64)
    ensures
        r == refit(n, start1, stop1, start2, stop2),
{
    fixed_add(
        fixed_mul(
            fixed_div(fixed_sub(n, start1), fixed_sub(stop1, start1)),
            fixed_sub(stop2, start2),
        ),
        start2,
    )
}

/// A leaky integrate-and-fire neuron.
#[derive(Clone, Copy, Debug)]
pub struct LifNeuron {
    pub membrane_potential: i64,
    pub reset_potential: i64,
    pub threshold_potential: i64,
    pub resistance: i64,
    pub resting_potential: i64,
    pub refractory_period: i64,
    pub refractory_counter: i64,
}

/// The potential, -70, at which a leaky neuron rests.
pub const LIF_RESTING_POTENTIAL: i64 = -70_000_000;

/// The potential, -90, to which a leaky neuron is reset.
pub const LIF_RESET_POTENTIAL: i64 = -90_000_000;

/// The potential, -55, above which a leaky neuron fires.
pub const LIF_THRESHOLD_POTENTIAL: i64 = -55_000_000;

/// The resistance, 1.3, of a leaky neuron.
pub const LIF_RESISTANCE: i64 = 1_300_000;

/// The refractory period, 0.09, of a leaky neuron.
pub const LIF_REFRACTORY_PERIOD: i64 = 90_000;

impl LifNeuron {
    /// A neuron at rest with the usual parameters: resting at -70, reset to
    /// -90, threshold at -55, a resistance of 1.3 and a refractory period of
    /// 0.09.
    pub fn new() -> (n: LifNeuron)
        ensures
            n == (LifNeuron {
                membrane_potential: LIF_RESTING_POTENTIAL,
                reset_potential: LIF_RESET_POTENTIAL,
                threshold_potential: LIF_THRESHOLD_POTENTIAL,
                resistance: LIF_RESISTANCE,
                resting_potential: LIF_RESTING_POTENTIAL,
                refractory_period: LIF_REFRACTORY_PERIOD,
                refractory_counter: 0,
            }),
    {
        LifNeuron {
            membrane_potential: LIF_RESTING_POTENTIAL,
            reset_potential: LIF_RESET_POTENTIAL,
            threshold_potential: LIF_THRESHOLD_POTENTIAL,
            resistance: LIF_RESISTANCE,
            resting_potential: LIF_RESTING_POTENTIAL,
            refractory_period: LIF_REFRACTORY_PERIOD,
            refractory_counter: 0,
        }
    }

    /// Sets the potential.
    pub fn set_membrane_potential(&mut self, membrane_potential: i64)
        ensures
            *final(self) == (LifNeuron { membrane_potential, ..*old(self) }),
    {
        self.membrane_potential = membrane_potential;
    }

    /// The neuron has fired recently and does not integrate.
    pub open spec fn refractory(&self) -> bool {
        self.refractory_counter > 0
    }

    /// The potential after one step of leak toward the resting potential.
    pub open spec fn relaxed_potential(&self, tau: i64) -> i64 {
        sat_add(
            self.membrane_potential,
            sat_mul(sat_sub(self.resting_potential, self.membrane_potential), tau),
        )
    }

    /// Whether a step of `tau` makes the neuron fire.
    pub open spec fn fires(&self, tau: i64) -> bool {
        !self.refractory() && self.relaxed_potential(tau) > self.threshold_potential
    }

    /// The neuron after a step of `tau`.
    pub open spec fn integrated(&self, tau: i64) -> LifNeuron {
        if self.refractory() {
            LifNeuron { refractory_counter: sat_sub(self.refractory_counter, tau), ..*self }
        } else if self.fires(tau) {
            LifNeuron {
                membrane_potential: self.reset_potential,
                refractory_counter: self.refractory_period,
                ..*self
            }
        } else {
            LifNeuron { membrane_potential: self.relaxed_potential(tau), ..*self }
        }
    }

    /// The neuron after `delta_v` is added to its potential.
    pub open spec fn injected(&self, delta_v: i64) -> LifNeuron {
        LifNeuron { membrane_potential: sat_add(self.membrane_potential, delta_v), ..*self }
    }

    /// The share of the way from resting to threshold that the potential has
    /// covered; one when the potential is below resting.
    pub open spec fn activation(&self) -> i64 {
        if self.membrane_potential < self.resting_potential {
            SCALE
        } else {
            refit(self.membrane_potential, self.resting_potential, self.threshold_potential, 0, SCALE)
        }
    }

    /// Integrates over one step. A refractory neuron only counts down.
    /// Otherwise the potential leaks toward resting, and if it then exceeds
    /// the threshold the neuron fires: the potential is reset and the
    /// refractory period starts.
    pub fn update(&mut self, tau: i64) -> (fired: bool)
        ensures
            *final(self) == old(self).integrated(tau),
            fired == old(self).fires(tau),
    {
        if self.refractory_counter > 0 {
            self.refractory_counter = fixed_sub(self.refractory_counter, tau);
            return false;
        }
        let delta_v: i64 = fixed_mul(fixed_sub(self.resting_potential, self.membrane_potential), tau);
        self.membrane_potential = fixed_add(self.membrane_potential, delta_v);
        if self.membrane_potential > self.threshold_potential {
            self.membrane_potential = self.reset_potential;
            self.refractory_counter = self.refractory_period;
            return true;
        }
        false
    }

    pub fn get_membrane_potential(&self) -> (v: i64)
        ensures
            v == self.membrane_potential,
    {
        self.membrane_potential
    }

    /// Adds `delta_v` to the potential at once and returns the new potential.
    pub fn add_membrane_potential(&mut self, delta_v: i64) -> (v: i64)
        ensures
            *final(self) == old(self).injected(delta_v),
            v == final(self).membrane_potential,
    {
        self.membrane_potential = fixed_add(self.membrane_potential, delta_v);
        self.membrane_potential
    }

    pub fn activation_percent(&self) -> (p: i64)
        ensures
            p == self.activation(),
    {
        if self.membrane_potential < self.resting_potential {
            return SCALE;
        }
        refit_to_range(self.membrane_potential, self.resting_potential, self.threshold_potential, 0, SCALE)
    }
}

/// An Izhikevich neuron: potential `v` and recovery variable `u`.
#[derive(Clone, Copy, Debug)]
pub struct IzhikevichNeuron {
    pub a: i64,
    pub b: i64,
    pub c: i64,
    pub d: i64,
    pub v: i64,
    pub u: i64,
    pub synapse_weight_multiplier: i64,
}

impl IzhikevichNeuron {
    /// The potential after one explicit Euler step, before any reset:
    /// `v + tau * (0.04 * v * v + 5 * v + 140 - u)`.
    pub open spec fn stepped_v(&self, tau: i64) -> i64 {
        sat_add(
            self.v,
            sat_mul(
                tau,
                sat_sub(
                    sat_add(
                        sat_add(
                            sat_mul(sat_mul(QUADRATIC_COEFFICIENT, self.v), self.v),
                            sat_mul(LINEAR_COEFFICIENT, self.v),
                        ),
                        CONSTANT_TERM,
                    ),
                    self.u,
                ),
            ),
        )
    }

    /// The recovery variable after one explicit Euler step, before any reset:
    /// `u + tau * a * (b * v - u)`.
    pub open spec fn stepped_u(&self, tau: i64) -> i64 {
        sat_add(self.u, sat_mul(sat_mul(tau, self.a), sat_sub(sat_mul(self.b, self.v), self.u)))
    }

    /// Whether a step of `tau` makes the neuron fire.
    pub open spec fn fires(&self, tau: i64) -> bool {
        self.stepped_v(tau) >= SPIKE_CUTOFF
    }

    /// The neuron after a step of `tau`.
    pub open spec fn integrated(&self, tau: i64) -> IzhikevichNeuron {
        if self.fires(tau) {
            IzhikevichNeuron { v: self.c, u: sat_add(self.stepped_u(tau), self.d), ..*self }
        } else {
            IzhikevichNeuron { v: self.stepped_v(tau), u: self.stepped_u(tau), ..*self }
        }
    }

    /// The neuron after `delta_v`, scaled by the weight multiplier, is added
    /// to its potential.
    pub open spec fn injected(&self, delta_v: i64) -> IzhikevichNeuron {
        IzhikevichNeuron {
            v: sat_add(self.v, sat_mul(delta_v, self.synapse_weight_multiplier)),
            ..*self
        }
    }

    /// One below -65; above, the distance from -65 as a share of 30.
    pub open spec fn activation(&self) -> i64 {
        if self.v < ACTIVATION_FLOOR {
            SCALE
        } else {
            sat_div(sat_sub(self.v, ACTIVATION_FLOOR), ACTIVATION_SPAN)
        }
    }

    /// Integrates over one step with explicit Euler. Both variables are
    /// stepped from their old values. If the potential reaches 30 the neuron
    /// fires: `v` becomes `c` and `d` is added to `u`.
    pub fn update(&mut self, tau: i64) -> (fired: bool)
        ensures
            *final(self) == old(self).integrated(tau),
            fired == old(self).fires(tau),
    {
        let quadratic: i64 = fixed_mul(fixed_mul(QUADRATIC_COEFFICIENT, self.v), self.v);
        let linear: i64 = fixed_mul(LINEAR_COEFFICIENT, self.v);
        let drive: i64 = fixed_sub(fixed_add(fixed_add(quadratic, linear), CONSTANT_TERM), self.u);
        let v: i64 = fixed_add(self.v, fixed_mul(tau, drive));
        let u: i64 = fixed_add(
            self.u,
            fixed_mul(fixed_mul(tau, self.a), fixed_sub(fixed_mul(self.b, self.v), self.u)),
        );
        self.v = v;
        self.u = u;
        if self.v >= SPIKE_CUTOFF {
            self.v = self.c;
            self.u = fixed_add(self.u, self.d);
            return true;
        }
        false
    }

    pub fn get_membrane_potential(&self) -> (v: i64)
        ensures
            v == self.v,
    {
        self.v
    }

    /// Adds `delta_v` times the weight multiplier to the potential at once and
    /// returns the new potential.
    pub fn add_membrane_potential(&mut self, delta_v: i64) -> (v: i64)
        ensures
            *final(self) == old(self).injected(delta_v),
            v == final(self).v,
    {
        self.v = fixed_add(self.v, fixed_mul(delta_v, self.synapse_weight_multiplier));
        self.v
    }

    pub fn activation_percent(&self) -> (p: i64)
        ensures
            p == self.activation(),
    {
        if self.v < ACTIVATION_FLOOR {
            return SCALE;
        }
        fixed_div(fixed_sub(self.v, ACTIVATION_FLOOR), ACTIVATION_SPAN)
    }
}

/// A neuron of either model.
#[derive(Clone, Copy, Debug)]
pub enum Neuron {
    Lif(LifNeuron),
    Izhikevich(IzhikevichNeuron),
}

impl Neuron {
    pub open spec fn potential(&self) -> i64 {
        match self {
            Neuron::Lif(n) => n.membrane_potential,
            Neuron::Izhikevich(n) => n.v,
        }
    }

    pub open spec fn fires(&self, tau: i64) -> bool {
        match self {
            Neuron::Lif(n) => n.fires(tau),
            Neuron::Izhikevich(n) => n.fires(tau),
        }
    }

    pub open spec fn integrated(&self, tau: i64) -> Neuron {
        match self {
            Neuron::Lif(n) => Neuron::Lif(n.integrated(tau)),
            Neuron::Izhikevich(n) => Neuron::Izhikevich(n.integrated(tau)),
        }
    }

    pub open spec fn injected(&self, delta_v: i64) -> Neuron {
        match self {
            Neuron::Lif(n) => Neuron::Lif(n.injected(delta_v)),
            Neuron::Izhikevich(n) => Neuron::Izhikevich(n.injected(delta_v)),
        }
    }

    pub open spec fn activation(&self) -> i64 {
        match self {
            Neuron::Lif(n) => n.activation(),
            Neuron::Izhikevich(n) => n.activation(),
        }
    }

    /// Integrates the neuron over one step and reports whether it fired.
    pub fn update(&mut self, tau: i64) -> (fired: bool)
        ensures
            *final(self) == old(self).integrated(tau),
            fired == old(self).fires(tau),
    {
        match self {
            Neuron::Lif(n) => n.update(tau),
            Neuron::Izhikevich(n) => n.update(tau),
        }
    }

    pub fn get_membrane_potential(&self) -> (v: i64)
        ensures
            v == self.potential(),
    {
        match self {
            Neuron::Lif(n) => n.get_membrane_potential(),
            Neuron::Izhikevich(n) => n.get_membrane_potential(),
        }
    }

    /// Injects current: adds to the potential at once (a negative `delta_v`
    /// subtracts) and returns the new potential.
    pub fn insert_current(&mut self, delta_v: i64) -> (v: i64)
        ensures
            *final(self) == old(self).injected(delta_v),
            v == final(self).potential(),
    {
        match self {
            Neuron::Lif(n) => n.add_membrane_potential(delta_v),
            Neuron::Izhikevich(n) => n.add_membrane_potential(delta_v),
        }
    }

    pub fn activation_percent(&self) -> (p: i64)
        ensures
            p == self.activation(),
    {
        match self {
            Neuron::Lif(n) => n.activation_percent(),
            Neuron::Izhikevich(n) => n.activation_percent(),
        }
    }
}

/// A leaky neuron that is not refractory, at or below its threshold, does not
/// fire, and its potential moves toward the resting potential without
/// passing it. This holds for steps of at most one, and where the resting
/// potential does not lie above the threshold.
pub proof fn lemma_lif_leak_approaches_rest(n: LifNeuron, tau: i64)
    requires
        n.membrane_potential <= n.threshold_potential,
        n.refractory_counter <= 0,
        n.resting_potential <= n.threshold_potential,
        0 <= tau <= SCALE,
    ensures
        !n.fires(tau),
        n.integrated(tau) == (LifNeuron { membrane_potential: n.relaxed_potential(tau), ..n }),
        n.membrane_potential <= n.resting_potential ==> n.membrane_potential
            <= n.integrated(tau).membrane_potential <= n.resting_potential,
        n.membrane_potential >= n.resting_potential ==> n.resting_potential
            <= n.integrated(tau).membrane_potential <= n.membrane_potential,
{
    lemma_mul_by_fraction(sat_sub(n.resting_potential, n.membrane_potential), tau);
}

} // verus!
