//! Synapse models: a static weight, and a weight adapted by spike-timing-
//! dependent plasticity through a decaying eligibility trace.

use vstd::prelude::*;
use crate::fixed::{
    clamp, fixed_add, fixed_clamp, fixed_mul, fixed_neg, fixed_sub, lemma_mul_by_fraction,
    lemma_mul_by_one, lemma_mul_by_proper_fraction, sat_add, sat_mul, sat_neg, sat_sub, SCALE,
};
use crate::time::ConfigError;

verus! {

/// Identifies a neuron: its index in the graph.
pub type NeuronId = usize;

/// Identifies a synapse: its slot in the graph, which it keeps for life.
pub type SynapseId = usize;

/// Whether a synapse raises or lowers the potential of its target.
#[derive(Clone, Copy, Debug, PartialEq, Eq, Structural)]
pub enum SynapseType {
    Excitatory,
    Inhibitory,
}

impl Default for SynapseType {
    fn default() -> (r: SynapseType)
        ensures
            r == SynapseType::Excitatory,
    {
        SynapseType::Excitatory
    }
}

/// Marks a neuron that may receive synapses.
#[derive(Clone, Copy, Debug)]
pub struct AllowSynapses;

/// A weight change that waits for a reward to scale it.
#[derive(Clone, Copy, Debug)]
pub struct DeferredStdpEvent {
    pub synapse: SynapseId,
    pub delta_weight: i64,
}

/// Periodic decay of all weights: every `interval`, `amount` is subtracted.
#[derive(Clone, Copy, Debug)]
pub struct SynapseDecay {
    pub interval: i64,
    pub amount: i64,
    pub next_decay: i64,
}

/// Cadence of plasticity updates.
#[derive(Clone, Copy, Debug)]
pub struct StdpSettings {
    pub look_back: i64,
    pub update_interval: i64,
    pub next_update: i64,
}

/// A synapse of fixed weight.
#[derive(Clone, Copy, Debug)]
pub struct SimpleSynapse {
    pub weight: i64,
    pub delay: u32,
    pub source: NeuronId,
    pub target: NeuronId,
    pub synapse_type: SynapseType,
}

impl SimpleSynapse {
    pub fn new(
        source: NeuronId,
        target: NeuronId,
        weight: i64,
        delay: u32,
        synapse_type: SynapseType,
    ) -> (s: SimpleSynapse)
        ensures
            s == (SimpleSynapse { weight, delay, source, target, synapse_type }),
    {
        SimpleSynapse { weight, delay, source, target, synapse_type }
    }

    /// A static synapse has no state to decay.
    pub fn update(&mut self, tau: i64)
        ensures
            *final(self) == *old(self),
    {
    }

    pub fn get_weight(&self) -> (w: i64)
        ensures
            w == self.weight,
    {
        self.weight
    }

    /// Stores `weight` as it is: the caller sees to its bounds.
    pub fn set_weight(&mut self, weight: i64)
        ensures
            *final(self) == (SimpleSynapse { weight, ..*old(self) }),
    {
        self.weight = weight;
    }

    pub fn get_presynaptic(&self) -> (n: NeuronId)
        ensures
            n == self.source,
    {
        self.source
    }

    pub fn get_postsynaptic(&self) -> (n: NeuronId)
        ensures
            n == self.target,
    {
        self.target
    }

    pub fn get_type(&self) -> (t: SynapseType)
        ensures
            t == self.synapse_type,
    {
        self.synapse_type
    }
}

/// The side of a synapse that spiked last.
#[derive(Clone, Copy, Debug, PartialEq, Eq, Structural)]
pub enum StdpSpikeType {
    PreSpike,
    PostSpike,
}

/// The plastic state of a synapse: the eligibility trace `a` and the side
/// that set it.
#[derive(Clone, Copy, Debug)]
pub struct StdpState {
    pub a: i64,
    pub spike_type: StdpSpikeType,
}

/// The constants of the plasticity rule.
#[derive(Clone, Copy, Debug)]
pub struct StdpParams {
    /// The trace that a presynaptic spike leaves: the largest positive change.
    pub a_plus: i64,
    /// The trace that a postsynaptic spike leaves: the largest negative change.
    pub a_minus: i64,
    /// The time constant of the decay of a positive change.
    pub tau_plus: i64,
    /// The time constant of the decay of a negative change.
    pub tau_minus: i64,
    /// The largest weight.
    pub w_max: i64,
    /// The smallest weight.
    pub w_min: i64,
}

impl StdpParams {
    /// The weight bounds are in order.
    pub open spec fn wf(&self) -> bool {
        self.w_min <= self.w_max
    }

    /// Refuses bounds with `w_min > w_max`.
    pub fn new(
        a_plus: i64,
        a_minus: i64,
        tau_plus: i64,
        tau_minus: i64,
        w_max: i64,
        w_min: i64,
    ) -> (r: Result<StdpParams, ConfigError>)
        ensures
            w_min <= w_max ==> r == Ok::<StdpParams, ConfigError>(
                StdpParams { a_plus, a_minus, tau_plus, tau_minus, w_max, w_min },
            ),
            w_min > w_max ==> r == Err::<StdpParams, ConfigError>(
                ConfigError::InvertedWeightBounds,
            ),
    {
        if w_min > w_max {
            Err(ConfigError::InvertedWeightBounds)
        } else {
            Ok(StdpParams { a_plus, a_minus, tau_plus, tau_minus, w_max, w_min })
        }
    }
}

/// A synapse whose weight follows spike timing.
#[derive(Clone, Copy, Debug)]
pub struct StdpSynapse {
    pub weight: i64,
    pub delay: u32,
    pub source: NeuronId,
    pub target: NeuronId,
    pub synapse_type: SynapseType,
    pub stdp_params: StdpParams,
    pub stdp_state: StdpState,
}

impl StdpSynapse {
    /// The trace can pair with a spike of the other side: it is not zero.
    /// The numbers have no value between zero and one millionth, so no
    /// trace but zero is negligible.
    pub open spec fn trace_live(&self) -> bool {
        self.stdp_state.a != 0
    }

    /// What a presynaptic spike emits: the trace, if it is live and a
    /// postsynaptic spike set it.
    pub open spec fn pre_emission(&self) -> Option<i64> {
        if self.trace_live() && self.stdp_state.spike_type == StdpSpikeType::PostSpike {
            Some(self.stdp_state.a)
        } else {
            None
        }
    }

    /// What a postsynaptic spike emits: the trace, if it is live and a
    /// presynaptic spike set it.
    pub open spec fn post_emission(&self) -> Option<i64> {
        if self.trace_live() && self.stdp_state.spike_type == StdpSpikeType::PreSpike {
            Some(self.stdp_state.a)
        } else {
            None
        }
    }

    /// The synapse after a presynaptic spike.
    pub open spec fn after_pre(&self) -> StdpSynapse {
        StdpSynapse {
            stdp_state: StdpState { a: self.stdp_params.a_plus, spike_type: StdpSpikeType::PreSpike },
            ..*self
        }
    }

    /// The synapse after a postsynaptic spike.
    pub open spec fn after_post(&self) -> StdpSynapse {
        StdpSynapse {
            stdp_state: StdpState {
                a: self.stdp_params.a_minus,
                spike_type: StdpSpikeType::PostSpike,
            },
            ..*self
        }
    }

    /// The trace after one step of relaxation toward zero: `a * (1 - tau)`,
    /// rounded toward zero, so that a step between zero and one brings every
    /// trace other than zero strictly nearer to zero.
    pub open spec fn decayed_trace(&self, tau: i64) -> i64 {
        sat_mul(self.stdp_state.a, sat_sub(SCALE, tau))
    }

    /// The synapse after a step of `tau`.
    pub open spec fn decayed(&self, tau: i64) -> StdpSynapse {
        StdpSynapse {
            stdp_state: StdpState { a: self.decayed_trace(tau), ..self.stdp_state },
            ..*self
        }
    }

    /// The synapse after `k` steps of `tau`.
    pub open spec fn decayed_times(&self, tau: i64, k: nat) -> StdpSynapse
        decreases k,
    {
        if k == 0 {
            *self
        } else {
            self.decayed_times(tau, (k - 1) as nat).decayed(tau)
        }
    }

    /// The synapse with its weight set to `weight`, limited to the bounds.
    pub open spec fn with_weight(&self, weight: i64) -> StdpSynapse {
        StdpSynapse {
            weight: clamp(weight, self.stdp_params.w_min, self.stdp_params.w_max),
            ..*self
        }
    }

    /// The synapse after a change of `delta_weight` scaled by `reward`.
    pub open spec fn rewarded(&self, delta_weight: i64, reward: i64) -> StdpSynapse {
        self.with_weight(sat_add(self.weight, sat_mul(delta_weight, reward)))
    }

    /// The neuron on the given side of the synapse.
    pub open spec fn endpoint(&self, side: StdpSpikeType) -> NeuronId {
        match side {
            StdpSpikeType::PreSpike => self.source,
            StdpSpikeType::PostSpike => self.target,
        }
    }

    /// What a spike on the given side emits.
    pub open spec fn emission(&self, side: StdpSpikeType) -> Option<i64> {
        match side {
            StdpSpikeType::PreSpike => self.pre_emission(),
            StdpSpikeType::PostSpike => self.post_emission(),
        }
    }

    /// The synapse after a spike on the given side.
    pub open spec fn after_spike(&self, side: StdpSpikeType) -> StdpSynapse {
        match side {
            StdpSpikeType::PreSpike => self.after_pre(),
            StdpSpikeType::PostSpike => self.after_post(),
        }
    }

    /// A synapse with a zero trace, as if a presynaptic spike came last. The
    /// weight is stored as given.
    pub fn new(
        source: NeuronId,
        target: NeuronId,
        weight: i64,
        delay: u32,
        synapse_type: SynapseType,
        stdp_params: StdpParams,
    ) -> (s: StdpSynapse)
        ensures
            s == (StdpSynapse {
                weight,
                delay,
                source,
                target,
                synapse_type,
                stdp_params,
                stdp_state: StdpState { a: 0, spike_type: StdpSpikeType::PreSpike },
            }),
    {
        StdpSynapse {
            weight,
            delay,
            source,
            target,
            synapse_type,
            stdp_params,
            stdp_state: StdpState { a: 0, spike_type: StdpSpikeType::PreSpike },
        }
    }

    /// Registers a presynaptic spike. Emits the trace if it is live and a
    /// postsynaptic spike came last; then marks the presynaptic side and
    /// resets the trace to `a_plus`.
    pub fn register_pre_spike(&mut self) -> (delta_w: Option<i64>)
        ensures
            delta_w == old(self).pre_emission(),
            *final(self) == old(self).after_pre(),
    {
        let mut delta_w: Option<i64> = None;
        if self.stdp_state.a != 0
            && self.stdp_state.spike_type == StdpSpikeType::PostSpike {
            delta_w = Some(self.stdp_state.a);
        }
        self.stdp_state.spike_type = StdpSpikeType::PreSpike;
        self.stdp_state.a = self.stdp_params.a_plus;
        delta_w
    }

    /// Registers a postsynaptic spike. Emits the trace if it is live and a
    /// presynaptic spike came last; then marks the postsynaptic side and
    /// resets the trace to `a_minus`.
    pub fn register_post_spike(&mut self) -> (delta_w: Option<i64>)
        ensures
            delta_w == old(self).post_emission(),
            *final(self) == old(self).after_post(),
    {
        let mut delta_w: Option<i64> = None;
        if self.stdp_state.a != 0
            && self.stdp_state.spike_type == StdpSpikeType::PreSpike {
            delta_w = Some(self.stdp_state.a);
        }
        self.stdp_state.spike_type = StdpSpikeType::PostSpike;
        self.stdp_state.a = self.stdp_params.a_minus;
        delta_w
    }

    /// Registers a spike on the given side.
    pub fn register_spike(&mut self, side: StdpSpikeType) -> (delta_w: Option<i64>)
        ensures
            delta_w == old(self).emission(side),
            *final(self) == old(self).after_spike(side),
    {
        match side {
            StdpSpikeType::PreSpike => self.register_pre_spike(),
            StdpSpikeType::PostSpike => self.register_post_spike(),
        }
    }

    /// Lets the trace relax toward zero over one step: `a += (0 - a) * tau`,
    /// computed as `a * (1 - tau)`.
    pub fn update(&mut self, tau: i64)
        ensures
            *final(self) == old(self).decayed(tau),
    {
        self.stdp_state.a = fixed_mul(self.stdp_state.a, fixed_sub(SCALE, tau));
    }

    pub fn get_weight(&self) -> (w: i64)
        ensures
            w == self.weight,
    {
        self.weight
    }

    /// Sets the weight, limited to the interval from `w_min` to `w_max`.
    pub fn set_weight(&mut self, weight: i64)
        ensures
            *final(self) == old(self).with_weight(weight),
    {
        self.weight = fixed_clamp(weight, self.stdp_params.w_min, self.stdp_params.w_max);
    }

    /// Applies a deferred change scaled by a reward:
    /// `weight = clamp(weight + delta_weight * reward, w_min, w_max)`.
    pub fn apply_reward(&mut self, delta_weight: i64, reward: i64)
        ensures
            *final(self) == old(self).rewarded(delta_weight, reward),
    {
        let target: i64 = fixed_add(self.weight, fixed_mul(delta_weight, reward));
        self.set_weight(target);
    }

    pub fn get_presynaptic(&self) -> (n: NeuronId)
        ensures
            n == self.source,
    {
        self.source
    }

    pub fn get_postsynaptic(&self) -> (n: NeuronId)
        ensures
            n == self.target,
    {
        self.target
    }

    pub fn get_type(&self) -> (t: SynapseType)
        ensures
            t == self.synapse_type,
    {
        self.synapse_type
    }
}

/// A synapse of either model.
#[derive(Clone, Copy, Debug)]
pub enum Synapse {
    Simple(SimpleSynapse),
    Stdp(StdpSynapse),
}

impl Synapse {
    pub open spec fn weight(&self) -> i64 {
        match self {
            Synapse::Simple(s) => s.weight,
            Synapse::Stdp(s) => s.weight,
        }
    }

    pub open spec fn source(&self) -> NeuronId {
        match self {
            Synapse::Simple(s) => s.source,
            Synapse::Stdp(s) => s.source,
        }
    }

    pub open spec fn target(&self) -> NeuronId {
        match self {
            Synapse::Simple(s) => s.target,
            Synapse::Stdp(s) => s.target,
        }
    }

    pub open spec fn kind(&self) -> SynapseType {
        match self {
            Synapse::Simple(s) => s.synapse_type,
            Synapse::Stdp(s) => s.synapse_type,
        }
    }

    /// What a spike of the source adds to the potential of the target: the
    /// weight for an excitatory synapse, its negation for an inhibitory one.
    pub open spec fn effect(&self) -> i64 {
        match self.kind() {
            SynapseType::Excitatory => self.weight(),
            SynapseType::Inhibitory => sat_neg(self.weight()),
        }
    }

    /// The synapse after a step of `tau`: only a plastic synapse changes.
    pub open spec fn decayed(&self, tau: i64) -> Synapse {
        match self {
            Synapse::Simple(s) => *self,
            Synapse::Stdp(s) => Synapse::Stdp(s.decayed(tau)),
        }
    }

    /// The synapse with its weight set to `weight`: as given for a static
    /// synapse, limited to the bounds for a plastic one.
    pub open spec fn with_weight(&self, weight: i64) -> Synapse {
        match self {
            Synapse::Simple(s) => Synapse::Simple(SimpleSynapse { weight, ..*s }),
            Synapse::Stdp(s) => Synapse::Stdp(s.with_weight(weight)),
        }
    }

    /// Decays the internal state over one step.
    pub fn update(&mut self, tau: i64)
        ensures
            *final(self) == old(self).decayed(tau),
    {
        match self {
            Synapse::Simple(s) => s.update(tau),
            Synapse::Stdp(s) => s.update(tau),
        }
    }

    pub fn get_weight(&self) -> (w: i64)
        ensures
            w == self.weight(),
    {
        match self {
            Synapse::Simple(s) => s.get_weight(),
            Synapse::Stdp(s) => s.get_weight(),
        }
    }

    pub fn set_weight(&mut self, weight: i64)
        ensures
            *final(self) == old(self).with_weight(weight),
    {
        match self {
            Synapse::Simple(s) => s.set_weight(weight),
            Synapse::Stdp(s) => s.set_weight(weight),
        }
    }

    pub fn get_presynaptic(&self) -> (n: NeuronId)
        ensures
            n == self.source(),
    {
        match self {
            Synapse::Simple(s) => s.get_presynaptic(),
            Synapse::Stdp(s) => s.get_presynaptic(),
        }
    }

    pub fn get_postsynaptic(&self) -> (n: NeuronId)
        ensures
            n == self.target(),
    {
        match self {
            Synapse::Simple(s) => s.get_postsynaptic(),
            Synapse::Stdp(s) => s.get_postsynaptic(),
        }
    }

    pub fn get_type(&self) -> (t: SynapseType)
        ensures
            t == self.kind(),
    {
        match self {
            Synapse::Simple(s) => s.get_type(),
            Synapse::Stdp(s) => s.get_type(),
        }
    }

    /// The instantaneous effect of a spike of the source on the target.
    pub fn get_effect(&self) -> (e: i64)
        ensures
            e == self.effect(),
    {
        match self.get_type() {
            SynapseType::Excitatory => self.get_weight(),
            SynapseType::Inhibitory => fixed_neg(self.get_weight()),
        }
    }
}

/// After a weight is set or a rewarded change applied, the weight of a
/// plastic synapse with ordered bounds lies within them.
pub proof fn lemma_weight_stays_in_bounds(s: StdpSynapse, weight: i64, delta_weight: i64, reward: i64)
    requires
        s.stdp_params.wf(),
    ensures
        s.stdp_params.w_min <= s.with_weight(weight).weight <= s.stdp_params.w_max,
        s.stdp_params.w_min <= s.rewarded(delta_weight, reward).weight <= s.stdp_params.w_max,
        s.with_weight(weight).stdp_params == s.stdp_params,
        s.rewarded(delta_weight, reward).stdp_params == s.stdp_params,
{
}

/// A presynaptic spike followed directly by a postsynaptic one emits
/// `a_plus`, and the other order emits `a_minus`, whatever the synapse was
/// before, as long as the emitted trace is not zero.
pub proof fn lemma_causal_pairing(s: StdpSynapse)
    ensures
        s.stdp_params.a_plus != 0 ==> s.after_pre().post_emission() == Some(s.stdp_params.a_plus),
        s.stdp_params.a_minus != 0 ==> s.after_post().pre_emission() == Some(
            s.stdp_params.a_minus,
        ),
        s.stdp_params.a_plus == 0 ==> s.after_pre().post_emission().is_none(),
        s.stdp_params.a_minus == 0 ==> s.after_post().pre_emission().is_none(),
        s.after_pre().pre_emission().is_none(),
        s.after_post().post_emission().is_none(),
{
}

/// With a step of at most one the trace moves toward zero and does not pass
/// it, and with a step above zero a trace other than zero moves strictly.
pub proof fn lemma_trace_decays_toward_zero(s: StdpSynapse, tau: i64)
    requires
        0 <= tau <= SCALE,
    ensures
        s.stdp_state.a >= 0 ==> 0 <= s.decayed(tau).stdp_state.a <= s.stdp_state.a,
        s.stdp_state.a <= 0 ==> s.stdp_state.a <= s.decayed(tau).stdp_state.a <= 0,
        tau > 0 && s.stdp_state.a > 0 ==> s.decayed(tau).stdp_state.a < s.stdp_state.a,
        tau > 0 && s.stdp_state.a < 0 ==> s.decayed(tau).stdp_state.a > s.stdp_state.a,
        s.decayed(tau).stdp_state.spike_type == s.stdp_state.spike_type,
        s.decayed(tau).stdp_params == s.stdp_params,
{
    lemma_mul_by_fraction(s.stdp_state.a, sat_sub(SCALE, tau));
    if tau > 0 {
        lemma_mul_by_proper_fraction(s.stdp_state.a, sat_sub(SCALE, tau));
    }
}

/// Over any number of steps between zero and one the trace stays between
/// zero and where it started, and after at least one step a trace other
/// than zero is strictly nearer to zero than where it started.
pub proof fn lemma_trace_after_steps(s: StdpSynapse, tau: i64, k: nat)
    requires
        0 < tau <= SCALE,
    ensures
        s.stdp_state.a >= 0 ==> 0 <= s.decayed_times(tau, k).stdp_state.a <= s.stdp_state.a,
        s.stdp_state.a <= 0 ==> s.stdp_state.a <= s.decayed_times(tau, k).stdp_state.a <= 0,
        k > 0 && s.stdp_state.a > 0 ==> s.decayed_times(tau, k).stdp_state.a < s.stdp_state.a,
        k > 0 && s.stdp_state.a < 0 ==> s.decayed_times(tau, k).stdp_state.a > s.stdp_state.a,
        s.decayed_times(tau, k).stdp_state.spike_type == s.stdp_state.spike_type,
        s.decayed_times(tau, k).stdp_params == s.stdp_params,
    decreases k,
{
    if k > 0 {
        lemma_trace_after_steps(s, tau, (k - 1) as nat);
        lemma_trace_decays_toward_zero(s.decayed_times(tau, (k - 1) as nat), tau);
    }
}

/// A postsynaptic spike that follows a presynaptic one after `k` steps of
/// decay emits the decayed trace as long as that is not zero. The emitted
/// trace has the sign of `a_plus`, is no larger in magnitude, and equals
/// `a_plus` only if no step lay between. The other order does the same
/// with `a_minus`.
pub proof fn lemma_pairing_after_decay(s: StdpSynapse, tau: i64, k: nat)
    requires
        0 < tau <= SCALE,
    ensures
        s.after_pre().decayed_times(tau, k).post_emission() == if s.after_pre().decayed_times(
            tau,
            k,
        ).stdp_state.a != 0 {
            Some(s.after_pre().decayed_times(tau, k).stdp_state.a)
        } else {
            None
        },
        s.after_post().decayed_times(tau, k).pre_emission() == if s.after_post().decayed_times(
            tau,
            k,
        ).stdp_state.a != 0 {
            Some(s.after_post().decayed_times(tau, k).stdp_state.a)
        } else {
            None
        },
        s.stdp_params.a_plus > 0 ==> 0 <= s.after_pre().decayed_times(tau, k).stdp_state.a
            <= s.stdp_params.a_plus,
        s.stdp_params.a_minus < 0 ==> s.stdp_params.a_minus <= s.after_post().decayed_times(
            tau,
            k,
        ).stdp_state.a <= 0,
        s.stdp_params.a_plus != 0 ==> (s.after_pre().decayed_times(tau, k).stdp_state.a
            == s.stdp_params.a_plus <==> k == 0),
        s.stdp_params.a_minus != 0 ==> (s.after_post().decayed_times(tau, k).stdp_state.a
            == s.stdp_params.a_minus <==> k == 0),
{
    lemma_trace_after_steps(s.after_pre(), tau, k);
    lemma_trace_after_steps(s.after_post(), tau, k);
}

/// A reward of one applies a deferred change as it is: the weight moves by
/// the change and is then limited to the bounds.
pub proof fn lemma_unit_reward_is_direct(s: StdpSynapse, delta_weight: i64)
    ensures
        s.rewarded(delta_weight, SCALE) == s.with_weight(sat_add(s.weight, delta_weight)),
{
    lemma_mul_by_one(delta_weight);
}

} // verus!
