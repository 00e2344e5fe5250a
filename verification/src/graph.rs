//! The simulation graph, an arena of neurons and synapses addressed by
//! stable integer identifiers, and the stages of one tick.

use vstd::prelude::*;
use crate::neurons::Neuron;
use crate::recorder::{recorded, SimpleSpikeRecorder};
use crate::structure::ColumnLayer;
use crate::fixed::{fixed_add, fixed_sub, sat_add, sat_sub};
use crate::synapses::{
    DeferredStdpEvent, NeuronId, StdpSpikeType, Synapse, SynapseDecay, SynapseId,
};
use crate::time::{update_clock, Clock};

verus! {

/// A synapse lighter than this is pruned.
pub const PRUNE_THRESHOLD: i64 = 100_000;

/// A neuron in the graph, with its layer and, if it has one, the recorder of
/// its spikes.
#[derive(Debug)]
pub struct NeuronEntry {
    pub neuron: Neuron,
    pub layer: ColumnLayer,
    pub recorder: Option<SimpleSpikeRecorder>,
}

/// A neuron fired at a time.
#[derive(Clone, Copy, Debug)]
pub struct SpikeEvent {
    pub time: i64,
    pub neuron: NeuronId,
}

/// Owns the neurons and the synapses. A neuron's identifier is its index in
/// `neurons`. A synapse's identifier is its slot in `synapses`; pruning
/// empties the slot, so the identifiers of the others stay.
#[derive(Debug)]
pub struct SimulationGraph {
    pub neurons: Vec<NeuronEntry>,
    pub synapses: Vec<Option<Synapse>>,
}

/// The neuron models of the entries, in order.
pub open spec fn neuron_states(entries: Seq<NeuronEntry>) -> Seq<Neuron> {
    Seq::new(entries.len(), |i: int| entries[i].neuron)
}

/// Each neuron after a step of `tau`.
pub open spec fn integrated_states(states: Seq<Neuron>, tau: i64) -> Seq<Neuron> {
    Seq::new(states.len(), |i: int| states[i].integrated(tau))
}

/// Each synapse after a step of `tau`.
pub open spec fn decayed_synapses(synapses: Seq<Option<Synapse>>, tau: i64) -> Seq<Option<Synapse>> {
    Seq::new(
        synapses.len(),
        |j: int|
            match synapses[j] {
                Some(s) => Some(s.decayed(tau)),
                None => None,
            },
    )
}

/// Whether pruning removes what is in a slot.
pub open spec fn prunable(slot: Option<Synapse>) -> bool {
    match slot {
        Some(s) => s.weight() < PRUNE_THRESHOLD,
        None => false,
    }
}

/// The slots after pruning: those of synapses lighter than the threshold are
/// empty, the others are as before.
pub open spec fn pruned_synapses(synapses: Seq<Option<Synapse>>) -> Seq<Option<Synapse>> {
    Seq::new(
        synapses.len(),
        |j: int|
            if prunable(synapses[j]) {
                None
            } else {
                synapses[j]
            },
    )
}

impl SimulationGraph {
    /// A graph without neurons or synapses.
    pub fn new() -> (g: SimulationGraph)
        ensures
            g.neurons@.len() == 0,
            g.synapses@.len() == 0,
    {
        SimulationGraph { neurons: Vec::new(), synapses: Vec::new() }
    }

    /// The synapse `id` is in the graph.
    pub open spec fn has_synapse(&self, id: SynapseId) -> bool {
        id < self.synapses@.len() && self.synapses@[id as int].is_some()
    }

    /// Adds a neuron and returns its identifier.
    pub fn add_neuron(
        &mut self,
        neuron: Neuron,
        layer: ColumnLayer,
        recorder: Option<SimpleSpikeRecorder>,
    ) -> (id: NeuronId)
        ensures
            id == old(self).neurons@.len(),
            final(self).neurons@ == old(self).neurons@.push(NeuronEntry { neuron, layer, recorder }),
            final(self).synapses@ == old(self).synapses@,
    {
        let id: usize = self.neurons.len();
        self.neurons.push(NeuronEntry { neuron, layer, recorder });
        id
    }

    /// Adds a synapse in a new slot and returns its identifier. The endpoints
    /// need not exist: a synapse toward a missing neuron has no effect.
    pub fn add_synapse(&mut self, synapse: Synapse) -> (id: SynapseId)
        ensures
            id == old(self).synapses@.len(),
            final(self).synapses@ == old(self).synapses@.push(Some(synapse)),
            final(self).neurons@ == old(self).neurons@,
    {
        let id: usize = self.synapses.len();
        self.synapses.push(Some(synapse));
        id
    }

    /// The synapse `id`, if the graph holds it.
    pub fn get_synapse(&self, id: SynapseId) -> (s: Option<Synapse>)
        ensures
            s == if id < self.synapses@.len() {
                self.synapses@[id as int]
            } else {
                None
            },
    {
        if id < self.synapses.len() {
            self.synapses[id]
        } else {
            None
        }
    }

    /// The potential of the neuron `id`, if the graph holds it.
    pub fn get_potential(&self, id: NeuronId) -> (v: Option<i64>)
        ensures
            v == if id < self.neurons@.len() {
                Some(self.neurons@[id as int].neuron.potential())
            } else {
                None
            },
    {
        if id < self.neurons.len() {
            Some(self.neurons[id].neuron.get_membrane_potential())
        } else {
            None
        }
    }

    /// The spikes that the neuron `id` has recorded, oldest first, or none if
    /// the graph does not hold the neuron or the neuron has no recorder.
    pub fn get_spikes(&self, id: NeuronId) -> (spikes: Option<Vec<i64>>)
        ensures
            spikes.is_some() == (id < self.neurons@.len()
                && self.neurons@[id as int].recorder.is_some()),
            spikes.is_some() ==> spikes.unwrap()@ == self.neurons@[id as int].recorder.unwrap()@,
    {
        if id < self.neurons.len() {
            match &self.neurons[id].recorder {
                Some(recorder) => Some(recorder.get_spikes()),
                None => None,
            }
        } else {
            None
        }
    }

    /// Injects current into the neuron `id` and returns its new potential, or
    /// does nothing and returns `None` if the graph does not hold it.
    pub fn inject_current(&mut self, id: NeuronId, delta_v: i64) -> (v: Option<i64>)
        ensures
            final(self).synapses@ == old(self).synapses@,
            id >= old(self).neurons@.len() ==> v.is_none() && final(self).neurons@ == old(
                self,
            ).neurons@,
            id < old(self).neurons@.len() ==> final(self).neurons@ == old(self).neurons@.update(
                id as int,
                NeuronEntry {
                    neuron: old(self).neurons@[id as int].neuron.injected(delta_v),
                    ..old(self).neurons@[id as int]
                },
            ) && v == Some(final(self).neurons@[id as int].neuron.potential()),
    {
        if id < self.neurons.len() {
            let v: i64 = self.neurons[id].neuron.insert_current(delta_v);
            assert(self.neurons@ =~= old(self).neurons@.update(
                id as int,
                NeuronEntry {
                    neuron: old(self).neurons@[id as int].neuron.injected(delta_v),
                    ..old(self).neurons@[id as int]
                },
            ));
            Some(v)
        } else {
            None
        }
    }
}

/// Lets every synapse decay its internal state over one step of the clock.
pub fn update_synapses(graph: &mut SimulationGraph, clock: &Clock)
    ensures
        final(graph).synapses@ == decayed_synapses(old(graph).synapses@, clock.tau),
        final(graph).neurons@ == old(graph).neurons@,
{
    let mut j: usize = 0;
    while j < graph.synapses.len()
        invariant
            graph.neurons@ == old(graph).neurons@,
            graph.synapses@.len() == old(graph).synapses@.len(),
            0 <= j <= graph.synapses@.len(),
            forall|k: int|
                0 <= k < j ==> graph.synapses@[k] == decayed_synapses(
                    old(graph).synapses@,
                    clock.tau,
                )[k],
            forall|k: int| j <= k < graph.synapses@.len() ==> graph.synapses@[k] == old(graph).synapses@[k],
        decreases graph.synapses@.len() - j,
    {
        match &mut graph.synapses[j] {
            Some(s) => {
                s.update(clock.tau);
            },
            None => {},
        }
        j = j + 1;
    }
    assert(graph.synapses@ =~= decayed_synapses(old(graph).synapses@, clock.tau));
}

/// Removes every synapse whose weight is below the pruning threshold.
pub fn prune_synapses(graph: &mut SimulationGraph)
    ensures
        final(graph).synapses@ == pruned_synapses(old(graph).synapses@),
        final(graph).neurons@ == old(graph).neurons@,
{
    let mut j: usize = 0;
    while j < graph.synapses.len()
        invariant
            graph.neurons@ == old(graph).neurons@,
            graph.synapses@.len() == old(graph).synapses@.len(),
            0 <= j <= graph.synapses@.len(),
            forall|k: int|
                0 <= k < j ==> graph.synapses@[k] == pruned_synapses(old(graph).synapses@)[k],
            forall|k: int| j <= k < graph.synapses@.len() ==> graph.synapses@[k] == old(graph).synapses@[k],
        decreases graph.synapses@.len() - j,
    {
        let light: bool = match &graph.synapses[j] {
            Some(s) => s.get_weight() < PRUNE_THRESHOLD,
            None => false,
        };
        if light {
            graph.synapses[j] = None;
        }
        j = j + 1;
    }
    assert(graph.synapses@ =~= pruned_synapses(old(graph).synapses@));
}

/// Each synapse with `amount` taken from its weight.
pub open spec fn weakened_synapses(synapses: Seq<Option<Synapse>>, amount: i64) -> Seq<
    Option<Synapse>,
> {
    Seq::new(
        synapses.len(),
        |j: int|
            match synapses[j] {
                Some(s) => Some(s.with_weight(sat_sub(s.weight(), amount))),
                None => None,
            },
    )
}

/// Weakens every synapse when a decay is due. Once the clock has reached
/// `next_decay`, `amount` is taken from every weight and the next decay is
/// set one `interval` after the time of the clock. Before that nothing
/// happens.
pub fn decay_synapses(graph: &mut SimulationGraph, clock: &Clock, decay: &mut SynapseDecay)
    ensures
        final(graph).neurons@ == old(graph).neurons@,
        final(decay).interval == old(decay).interval,
        final(decay).amount == old(decay).amount,
        clock.time < old(decay).next_decay ==> final(decay).next_decay == old(decay).next_decay
            && final(graph).synapses@ == old(graph).synapses@,
        clock.time >= old(decay).next_decay ==> final(decay).next_decay == sat_add(
            clock.time,
            old(decay).interval,
        ) && final(graph).synapses@ == weakened_synapses(old(graph).synapses@, old(decay).amount),
{
    if clock.time >= decay.next_decay {
        decay.next_decay = fixed_add(clock.time, decay.interval);
        let mut j: usize = 0;
        while j < graph.synapses.len()
            invariant
                graph.neurons@ == old(graph).neurons@,
                graph.synapses@.len() == old(graph).synapses@.len(),
                decay.amount == old(decay).amount,
                0 <= j <= graph.synapses@.len(),
                forall|k: int|
                    0 <= k < j ==> graph.synapses@[k] == weakened_synapses(
                        old(graph).synapses@,
                        decay.amount,
                    )[k],
                forall|k: int|
                    j <= k < graph.synapses@.len() ==> graph.synapses@[k] == old(graph).synapses@[k],
            decreases graph.synapses@.len() - j,
        {
            match &mut graph.synapses[j] {
                Some(s) => {
                    let weight: i64 = s.get_weight();
                    s.set_weight(fixed_sub(weight, decay.amount));
                },
                None => {},
            }
            j = j + 1;
        }
        assert(graph.synapses@ =~= weakened_synapses(old(graph).synapses@, old(decay).amount));
    }
}

/// What is in a slot after a spike of `neuron` is registered on one side: a
/// plastic synapse with `neuron` on that side registers it, all else stays.
pub open spec fn registered(slot: Option<Synapse>, neuron: NeuronId, side: StdpSpikeType) -> Option<
    Synapse,
> {
    match slot {
        Some(Synapse::Stdp(s)) => if s.endpoint(side) == neuron {
            Some(Synapse::Stdp(s.after_spike(side)))
        } else {
            slot
        },
        _ => slot,
    }
}

/// The deferred event, if any, that the slot `id` emits when a spike of
/// `neuron` is registered on one side.
pub open spec fn emitted(
    slot: Option<Synapse>,
    id: SynapseId,
    neuron: NeuronId,
    side: StdpSpikeType,
) -> Seq<DeferredStdpEvent> {
    match slot {
        Some(Synapse::Stdp(s)) => if s.endpoint(side) == neuron && s.emission(side).is_some() {
            seq![DeferredStdpEvent { synapse: id, delta_weight: s.emission(side).unwrap() }]
        } else {
            Seq::empty()
        },
        _ => Seq::empty(),
    }
}

/// All slots after a spike of `neuron` is registered on one side.
pub open spec fn registered_synapses(
    synapses: Seq<Option<Synapse>>,
    neuron: NeuronId,
    side: StdpSpikeType,
) -> Seq<Option<Synapse>> {
    Seq::new(synapses.len(), |j: int| registered(synapses[j], neuron, side))
}

/// The deferred events that the first `k` slots emit, in slot order, when a
/// spike of `neuron` is registered on one side.
pub open spec fn registration_events(
    synapses: Seq<Option<Synapse>>,
    neuron: NeuronId,
    side: StdpSpikeType,
    k: nat,
) -> Seq<DeferredStdpEvent>
    decreases k,
{
    if k == 0 {
        Seq::empty()
    } else {
        registration_events(synapses, neuron, side, (k - 1) as nat) + emitted(
            synapses[k - 1],
            (k - 1) as usize,
            neuron,
            side,
        )
    }
}

/// All slots after `neuron` fired: its spike is registered on the
/// presynaptic side of every synapse, then on the postsynaptic side.
pub open spec fn fired_synapses(synapses: Seq<Option<Synapse>>, neuron: NeuronId) -> Seq<
    Option<Synapse>,
> {
    registered_synapses(
        registered_synapses(synapses, neuron, StdpSpikeType::PreSpike),
        neuron,
        StdpSpikeType::PostSpike,
    )
}

/// The deferred events that the firing of `neuron` emits: those of the
/// presynaptic pass, then those of the postsynaptic pass.
pub open spec fn fired_events(synapses: Seq<Option<Synapse>>, neuron: NeuronId) -> Seq<
    DeferredStdpEvent,
> {
    registration_events(synapses, neuron, StdpSpikeType::PreSpike, synapses.len())
        + registration_events(
        registered_synapses(synapses, neuron, StdpSpikeType::PreSpike),
        neuron,
        StdpSpikeType::PostSpike,
        synapses.len(),
    )
}

/// The slots after the first `k` neurons were integrated over `tau`, each
/// firing registered in neuron order.
pub open spec fn synapses_after(
    states: Seq<Neuron>,
    synapses: Seq<Option<Synapse>>,
    tau: i64,
    k: nat,
) -> Seq<Option<Synapse>>
    decreases k,
{
    if k == 0 {
        synapses
    } else {
        let before = synapses_after(states, synapses, tau, (k - 1) as nat);
        if states[k - 1].fires(tau) {
            fired_synapses(before, (k - 1) as usize)
        } else {
            before
        }
    }
}

/// The deferred events emitted while the first `k` neurons were integrated
/// over `tau`, in neuron order.
pub open spec fn events_after(
    states: Seq<Neuron>,
    synapses: Seq<Option<Synapse>>,
    tau: i64,
    k: nat,
) -> Seq<DeferredStdpEvent>
    decreases k,
{
    if k == 0 {
        Seq::empty()
    } else {
        let before = events_after(states, synapses, tau, (k - 1) as nat);
        if states[k - 1].fires(tau) {
            before + fired_events(
                synapses_after(states, synapses, tau, (k - 1) as nat),
                (k - 1) as usize,
            )
        } else {
            before
        }
    }
}

/// The spikes of those of the first `k` neurons that fire in a step of `tau`
/// ending at `time`, in neuron order.
pub open spec fn spikes_of(states: Seq<Neuron>, tau: i64, time: i64, k: nat) -> Seq<SpikeEvent>
    decreases k,
{
    if k == 0 {
        Seq::empty()
    } else {
        let before = spikes_of(states, tau, time, (k - 1) as nat);
        if states[k - 1].fires(tau) {
            before.push(SpikeEvent { time, neuron: (k - 1) as usize })
        } else {
            before
        }
    }
}

/// How the recorder of a neuron changes over a step that ends at `time`: it
/// records `time` if the neuron fired, and is untouched if not.
pub open spec fn recorder_stepped(
    before: Option<SimpleSpikeRecorder>,
    after: Option<SimpleSpikeRecorder>,
    fired: bool,
    time: i64,
) -> bool {
    if fired {
        match (before, after) {
            (Some(b), Some(a)) => a.capacity() == b.capacity() && a@ == recorded(
                b@,
                b.capacity(),
                time,
            ),
            (None, None) => true,
            _ => false,
        }
    } else {
        after == before
    }
}

/// A recorder that is within its capacity stays within it over a step.
pub proof fn lemma_stepped_recorder_stays_bounded(
    before: Option<SimpleSpikeRecorder>,
    after: Option<SimpleSpikeRecorder>,
    fired: bool,
    time: i64,
)
    requires
        recorder_stepped(before, after, fired, time),
        before.is_some() ==> before.unwrap().wf(),
    ensures
        after.is_some() == before.is_some(),
        after.is_some() ==> after.unwrap().wf(),
{
}

/// How the entry of a neuron changes when the neuron is integrated over a
/// step of `tau` that ends at `time`: the model is stepped, the layer stays,
/// and a recorder records `time` if the neuron fired.
pub open spec fn entry_integrated(before: NeuronEntry, after: NeuronEntry, tau: i64, time: i64) -> bool {
    &&& after.neuron == before.neuron.integrated(tau)
    &&& after.layer == before.layer
    &&& recorder_stepped(before.recorder, after.recorder, before.neuron.fires(tau), time)
}

/// Registers a spike of `neuron` on one side of every plastic synapse that
/// has `neuron` on that side, in slot order, and queues what they emit.
pub fn register_spikes(
    synapses: &mut Vec<Option<Synapse>>,
    deferred: &mut Vec<DeferredStdpEvent>,
    neuron: NeuronId,
    side: StdpSpikeType,
)
    ensures
        final(synapses)@ == registered_synapses(old(synapses)@, neuron, side),
        final(deferred)@ == old(deferred)@ + registration_events(
            old(synapses)@,
            neuron,
            side,
            old(synapses)@.len(),
        ),
{
    let mut j: usize = 0;
    while j < synapses.len()
        invariant
            synapses@.len() == old(synapses)@.len(),
            0 <= j <= synapses@.len(),
            forall|k: int| 0 <= k < j ==> synapses@[k] == registered(old(synapses)@[k], neuron, side),
            forall|k: int| j <= k < synapses@.len() ==> synapses@[k] == old(synapses)@[k],
            deferred@ == old(deferred)@ + registration_events(old(synapses)@, neuron, side, j as nat),
        decreases synapses@.len() - j,
    {
        let ghost queued = deferred@;
        match &mut synapses[j] {
            Some(Synapse::Stdp(s)) => {
                let endpoint: NeuronId = match side {
                    StdpSpikeType::PreSpike => s.get_presynaptic(),
                    StdpSpikeType::PostSpike => s.get_postsynaptic(),
                };
                if endpoint == neuron {
                    let delta_w: Option<i64> = s.register_spike(side);
                    match delta_w {
                        Some(delta_weight) => {
                            deferred.push(DeferredStdpEvent { synapse: j, delta_weight });
                        },
                        None => {},
                    }
                }
            },
            _ => {},
        }
        proof {
            assert(deferred@ =~= queued + emitted(old(synapses)@[j as int], j, neuron, side));
            assert(deferred@ =~= old(deferred)@ + registration_events(
                old(synapses)@,
                neuron,
                side,
                (j + 1) as nat,
            ));
        }
        j = j + 1;
    }
    assert(synapses@ =~= registered_synapses(old(synapses)@, neuron, side));
}

/// Integrates every neuron over one step of the clock, unless the clock is
/// out of budget. For each neuron that fires, in neuron order: a spike is
/// queued, the neuron's recorder records the time, and the spike is
/// registered with every plastic synapse that leaves the neuron and then
/// with every one that reaches it; what they emit is queued as deferred
/// events. No potential but the neuron's own is touched.
pub fn update_neurons(
    clock: &Clock,
    graph: &mut SimulationGraph,
    spikes: &mut Vec<SpikeEvent>,
    deferred: &mut Vec<DeferredStdpEvent>,
)
    ensures
        final(graph).neurons@.len() == old(graph).neurons@.len(),
        clock.paused() ==> {
            &&& final(graph).neurons@ == old(graph).neurons@
            &&& final(graph).synapses@ == old(graph).synapses@
            &&& final(spikes)@ == old(spikes)@
            &&& final(deferred)@ == old(deferred)@
        },
        !clock.paused() ==> {
            &&& forall|i: int|
                0 <= i < old(graph).neurons@.len() ==> entry_integrated(
                    old(graph).neurons@[i],
                    #[trigger] final(graph).neurons@[i],
                    clock.tau,
                    clock.time,
                )
            &&& neuron_states(final(graph).neurons@) == integrated_states(
                neuron_states(old(graph).neurons@),
                clock.tau,
            )
            &&& final(graph).synapses@ == synapses_after(
                neuron_states(old(graph).neurons@),
                old(graph).synapses@,
                clock.tau,
                old(graph).neurons@.len(),
            )
            &&& final(spikes)@ == old(spikes)@ + spikes_of(
                neuron_states(old(graph).neurons@),
                clock.tau,
                clock.time,
                old(graph).neurons@.len(),
            )
            &&& final(deferred)@ == old(deferred)@ + events_after(
                neuron_states(old(graph).neurons@),
                old(graph).synapses@,
                clock.tau,
                old(graph).neurons@.len(),
            )
        },
{
    if clock.is_paused() {
        return ;
    }
    let ghost states = neuron_states(old(graph).neurons@);
    let mut i: usize = 0;
    while i < graph.neurons.len()
        invariant
            !clock.paused(),
            states == neuron_states(old(graph).neurons@),
            graph.neurons@.len() == old(graph).neurons@.len(),
            0 <= i <= graph.neurons@.len(),
            forall|k: int|
                0 <= k < i ==> entry_integrated(
                    old(graph).neurons@[k],
                    #[trigger] graph.neurons@[k],
                    clock.tau,
                    clock.time,
                ),
            forall|k: int| i <= k < graph.neurons@.len() ==> graph.neurons@[k] == old(graph).neurons@[k],
            graph.synapses@ == synapses_after(states, old(graph).synapses@, clock.tau, i as nat),
            spikes@ == old(spikes)@ + spikes_of(states, clock.tau, clock.time, i as nat),
            deferred@ == old(deferred)@ + events_after(states, old(graph).synapses@, clock.tau, i as nat),
        decreases graph.neurons@.len() - i,
    {
        let ghost spikes_before = spikes@;
        let ghost deferred_before = deferred@;
        let ghost synapses_before = graph.synapses@;
        let fired: bool = graph.neurons[i].neuron.update(clock.tau);
        if fired {
            spikes.push(SpikeEvent { time: clock.time, neuron: i });
            match &mut graph.neurons[i].recorder {
                Some(recorder) => {
                    recorder.record_spike(clock.time);
                },
                None => {},
            }
            register_spikes(&mut graph.synapses, deferred, i, StdpSpikeType::PreSpike);
            register_spikes(&mut graph.synapses, deferred, i, StdpSpikeType::PostSpike);
        }
        proof {
            assert(states[i as int] == old(graph).neurons@[i as int].neuron);
            if fired {
                assert(spikes@ =~= old(spikes)@ + spikes_of(
                    states,
                    clock.tau,
                    clock.time,
                    (i + 1) as nat,
                ));
                assert(registered_synapses(
                    synapses_before,
                    i,
                    StdpSpikeType::PreSpike,
                ).len() == synapses_before.len());
                assert(deferred@ =~= deferred_before + fired_events(synapses_before, i));
                assert(deferred@ =~= old(deferred)@ + events_after(
                    states,
                    old(graph).synapses@,
                    clock.tau,
                    (i + 1) as nat,
                ));
            }
        }
        i = i + 1;
    }
    assert(neuron_states(graph.neurons@) =~= integrated_states(states, clock.tau));
}

/// The neurons after the first `k` slots delivered a spike of `source`:
/// every synapse that leaves `source` injects its effect into its target, in
/// slot order. A synapse whose target is missing is skipped.
pub open spec fn delivered(
    states: Seq<Neuron>,
    synapses: Seq<Option<Synapse>>,
    source: NeuronId,
    k: nat,
) -> Seq<Neuron>
    decreases k,
{
    if k == 0 {
        states
    } else {
        let before = delivered(states, synapses, source, (k - 1) as nat);
        match synapses[k - 1] {
            Some(s) => if s.source() == source && s.target() < before.len() {
                before.update(s.target() as int, before[s.target() as int].injected(s.effect()))
            } else {
                before
            },
            None => before,
        }
    }
}

/// The neurons after the first `k` spikes were delivered, in queue order.
pub open spec fn propagated(
    states: Seq<Neuron>,
    synapses: Seq<Option<Synapse>>,
    spikes: Seq<SpikeEvent>,
    k: nat,
) -> Seq<Neuron>
    decreases k,
{
    if k == 0 {
        states
    } else {
        delivered(
            propagated(states, synapses, spikes, (k - 1) as nat),
            synapses,
            spikes[k - 1].neuron,
            synapses.len(),
        )
    }
}

/// Delivery keeps the number of neurons.
pub proof fn lemma_delivery_keeps_length(
    states: Seq<Neuron>,
    synapses: Seq<Option<Synapse>>,
    source: NeuronId,
    k: nat,
)
    ensures
        delivered(states, synapses, source, k).len() == states.len(),
    decreases k,
{
    if k > 0 {
        lemma_delivery_keeps_length(states, synapses, source, (k - 1) as nat);
    }
}

/// Propagation keeps the number of neurons.
pub proof fn lemma_propagation_keeps_length(
    states: Seq<Neuron>,
    synapses: Seq<Option<Synapse>>,
    spikes: Seq<SpikeEvent>,
    k: nat,
)
    ensures
        propagated(states, synapses, spikes, k).len() == states.len(),
    decreases k,
{
    if k > 0 {
        lemma_propagation_keeps_length(states, synapses, spikes, (k - 1) as nat);
        lemma_delivery_keeps_length(
            propagated(states, synapses, spikes, (k - 1) as nat),
            synapses,
            spikes[k - 1].neuron,
            synapses.len(),
        );
    }
}

/// Applies the queued spikes: for every spike, in queue order, every synapse
/// that leaves the neuron that fired injects its weight into its target,
/// negated if the synapse is inhibitory. A synapse whose target is not in
/// the graph is skipped. The queue is left empty.
pub fn update_synapses_for_spikes(graph: &mut SimulationGraph, spikes: &mut Vec<SpikeEvent>)
    ensures
        final(graph).synapses@ == old(graph).synapses@,
        final(graph).neurons@.len() == old(graph).neurons@.len(),
        forall|i: int|
            0 <= i < old(graph).neurons@.len() ==> (#[trigger] final(graph).neurons@[i]).layer == old(
                graph,
            ).neurons@[i].layer && final(graph).neurons@[i].recorder == old(graph).neurons@[i].recorder,
        neuron_states(final(graph).neurons@) == propagated(
            neuron_states(old(graph).neurons@),
            old(graph).synapses@,
            old(spikes)@,
            old(spikes)@.len(),
        ),
        final(spikes)@.len() == 0,
{
    let ghost states = neuron_states(old(graph).neurons@);
    let ghost synapses = old(graph).synapses@;
    let mut e: usize = 0;
    while e < spikes.len()
        invariant
            spikes@ == old(spikes)@,
            graph.synapses@ == synapses,
            synapses == old(graph).synapses@,
            states == neuron_states(old(graph).neurons@),
            graph.neurons@.len() == old(graph).neurons@.len(),
            0 <= e <= spikes@.len(),
            forall|i: int|
                0 <= i < old(graph).neurons@.len() ==> (#[trigger] graph.neurons@[i]).layer == old(
                    graph,
                ).neurons@[i].layer && graph.neurons@[i].recorder == old(graph).neurons@[i].recorder,
            neuron_states(graph.neurons@) == propagated(states, synapses, spikes@, e as nat),
        decreases spikes@.len() - e,
    {
        let source: NeuronId = spikes[e].neuron;
        let ghost reached = neuron_states(graph.neurons@);
        let mut j: usize = 0;
        while j < graph.synapses.len()
            invariant
                graph.synapses@ == synapses,
                graph.neurons@.len() == old(graph).neurons@.len(),
                reached.len() == graph.neurons@.len(),
                0 <= j <= synapses.len(),
                forall|i: int|
                    0 <= i < old(graph).neurons@.len() ==> (#[trigger] graph.neurons@[i]).layer
                        == old(graph).neurons@[i].layer && graph.neurons@[i].recorder == old(
                        graph,
                    ).neurons@[i].recorder,
                neuron_states(graph.neurons@) == delivered(reached, synapses, source, j as nat),
            decreases synapses.len() - j,
        {
            let ghost before = neuron_states(graph.neurons@);
            match graph.synapses[j] {
                Some(s) => {
                    if s.get_presynaptic() == source {
                        let target: NeuronId = s.get_postsynaptic();
                        if target < graph.neurons.len() {
                            let effect: i64 = s.get_effect();
                            let _potential: i64 = graph.neurons[target].neuron.insert_current(effect);
                            assert(neuron_states(graph.neurons@) =~= before.update(
                                target as int,
                                before[target as int].injected(effect),
                            ));
                        }
                    }
                },
                None => {},
            }
            j = j + 1;
        }
        e = e + 1;
    }
    spikes.clear();
}

/// A simulation: the clock, the graph, the spikes of the current tick and
/// the deferred plasticity events that wait for a reward.
#[derive(Debug)]
pub struct Simulation {
    pub clock: Clock,
    pub graph: SimulationGraph,
    pub spikes: Vec<SpikeEvent>,
    pub deferred: Vec<DeferredStdpEvent>,
}

impl Simulation {
    /// A simulation of `graph` driven by `clock`, with empty queues.
    pub fn new(clock: Clock, graph: SimulationGraph) -> (sim: Simulation)
        ensures
            sim.clock == clock,
            sim.graph == graph,
            sim.spikes@.len() == 0,
            sim.deferred@.len() == 0,
    {
        Simulation { clock, graph, spikes: Vec::new(), deferred: Vec::new() }
    }

    /// The neuron models after the integration stage of a tick.
    pub open spec fn integrated(&self) -> Seq<Neuron> {
        integrated_states(neuron_states(self.graph.neurons@), self.clock.advanced().tau)
    }

    /// The queue of spikes after the integration stage of a tick.
    pub open spec fn spiked(&self) -> Seq<SpikeEvent> {
        self.spikes@ + spikes_of(
            neuron_states(self.graph.neurons@),
            self.clock.advanced().tau,
            self.clock.advanced().time,
            self.graph.neurons@.len(),
        )
    }

    /// The slots after the integration stage of a tick.
    pub open spec fn registered(&self) -> Seq<Option<Synapse>> {
        synapses_after(
            neuron_states(self.graph.neurons@),
            self.graph.synapses@,
            self.clock.advanced().tau,
            self.graph.neurons@.len(),
        )
    }

    /// Runs one tick. The clock advances; if it is then out of budget the
    /// tick ends and nothing else changes. Otherwise, in this order: every
    /// neuron integrates and its firing is registered; the spikes of this
    /// tick are delivered through the synapses; every synapse decays; light
    /// synapses are pruned. Returns whether the stages ran.
    pub fn tick(&mut self) -> (ran: bool)
        ensures
            final(self).clock == old(self).clock.advanced(),
            ran == !old(self).clock.advanced().paused(),
            final(self).graph.neurons@.len() == old(self).graph.neurons@.len(),
            !ran ==> {
                &&& final(self).graph.neurons@ == old(self).graph.neurons@
                &&& final(self).graph.synapses@ == old(self).graph.synapses@
                &&& final(self).spikes@ == old(self).spikes@
                &&& final(self).deferred@ == old(self).deferred@
            },
            ran ==> {
                &&& forall|i: int|
                    0 <= i < old(self).graph.neurons@.len() ==> (
                    #[trigger] final(self).graph.neurons@[i]).layer == old(
                        self,
                    ).graph.neurons@[i].layer
                &&& forall|i: int|
                    0 <= i < old(self).graph.neurons@.len() ==> recorder_stepped(
                        old(self).graph.neurons@[i].recorder,
                        (#[trigger] final(self).graph.neurons@[i]).recorder,
                        old(self).graph.neurons@[i].neuron.fires(final(self).clock.tau),
                        final(self).clock.time,
                    )
                &&& neuron_states(final(self).graph.neurons@) == propagated(
                    old(self).integrated(),
                    old(self).registered(),
                    old(self).spiked(),
                    old(self).spiked().len(),
                )
                &&& final(self).graph.synapses@ == pruned_synapses(
                    decayed_synapses(old(self).registered(), final(self).clock.tau),
                )
                &&& final(self).spikes@.len() == 0
                &&& final(self).deferred@ == old(self).deferred@ + events_after(
                    neuron_states(old(self).graph.neurons@),
                    old(self).graph.synapses@,
                    final(self).clock.tau,
                    old(self).graph.neurons@.len(),
                )
            },
    {
        update_clock(&mut self.clock);
        if self.clock.is_paused() {
            return false;
        }
        update_neurons(&self.clock, &mut self.graph, &mut self.spikes, &mut self.deferred);
        let ghost stepped = self.graph.neurons@;
        update_synapses_for_spikes(&mut self.graph, &mut self.spikes);
        update_synapses(&mut self.graph, &self.clock);
        prune_synapses(&mut self.graph);
        proof {
            assert forall|i: int| 0 <= i < old(self).graph.neurons@.len() implies (
            #[trigger] self.graph.neurons@[i]).layer == old(self).graph.neurons@[i].layer by {
                assert(entry_integrated(
                    old(self).graph.neurons@[i],
                    stepped[i],
                    self.clock.tau,
                    self.clock.time,
                ));
            }
            assert forall|i: int| 0 <= i < old(self).graph.neurons@.len() implies recorder_stepped(
                old(self).graph.neurons@[i].recorder,
                (#[trigger] self.graph.neurons@[i]).recorder,
                old(self).graph.neurons@[i].neuron.fires(self.clock.tau),
                self.clock.time,
            ) by {
                assert(entry_integrated(
                    old(self).graph.neurons@[i],
                    stepped[i],
                    self.clock.tau,
                    self.clock.time,
                ));
            }
        }
        true
    }
}

} // verus!
