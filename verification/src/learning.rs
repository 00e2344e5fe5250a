//! The reward-modulated learning loop: at the end of each presentation
//! window the recent output spikes are turned into a reward, the deferred
//! plasticity events are applied scaled by it, and the next class is
//! presented.

use vstd::prelude::*;
use crate::fixed::{
    clamp, fixed_abs, fixed_add, fixed_clamp, fixed_div, fixed_sub, from_whole,
    lemma_div_against_divisor, lemma_div_monotone, sat_abs, sat_add, sat_div, sat_sub, whole,
    SCALE,
};
use crate::graph::{NeuronEntry, SimulationGraph};
use crate::random::random_in_range;
use crate::recorder::count_since;
use crate::structure::ColumnLayer;
use crate::synapses::{DeferredStdpEvent, NeuronId, Synapse};
use crate::time::Clock;
use crate::transcoder::PopulationEncoder;

verus! {

/// The number of spikes that the presented class should produce in a window.
pub const TARGET_RATE: i32 = 3;

/// The least reward, -1.
pub const MIN_REWARD: i64 = -1_000_000;

/// The greatest reward, 1.
pub const MAX_REWARD: i64 = 1_000_000;

/// Stands in for a target rate of zero, so that the error can be divided by
/// it: 0.001.
pub const ZERO_TARGET: i64 = 1_000;

/// A reward of exactly zero is replaced by a draw from -2 to 2: this is the
/// lower end.
pub const EXPLORATION_MIN: i64 = -2_000_000;

/// The upper end of the draw that replaces a reward of zero.
pub const EXPLORATION_MAX: i64 = 2_000_000;

/// The least current, 1.6, injected into a neuron of the presented class.
pub const STIMULUS_MIN: i64 = 1_600_000;

/// The greatest current, 1.8, injected into a neuron of the presented class.
pub const STIMULUS_MAX: i64 = 1_800_000;

/// The level of the reward signal.
#[derive(Clone, Copy, Debug)]
pub struct Dopamine {
    pub amount: i64,
}

/// The classes that are presented in turn.
#[derive(Clone, Copy, Debug, PartialEq, Eq, Structural)]
pub enum Class {
    Hello,
    World,
}

impl Class {
    /// The class that follows this one.
    pub open spec fn other(self) -> Class {
        match self {
            Class::Hello => Class::World,
            Class::World => Class::Hello,
        }
    }

    /// The class that follows this one.
    pub fn next(self) -> (c: Class)
        ensures
            c == self.other(),
    {
        match self {
            Class::Hello => Class::World,
            Class::World => Class::Hello,
        }
    }
}

/// The distance of an observed rate from its target.
pub open spec fn error_of(firing_rate: i64, target_rate: i64) -> i64 {
    sat_abs(sat_sub(target_rate, firing_rate))
}

/// The target rate as a divisor: a target of zero is replaced by 0.001.
pub open spec fn target_divisor(target_rate: i32) -> i64 {
    if target_rate == 0 {
        ZERO_TARGET
    } else {
        whole(target_rate as int)
    }
}

/// The reward for an error against a target: `1 - error / target`, limited
/// to the interval from -1 to 1. It is computed as
/// `(target - error) / target`, rounded toward zero, so that only an error
/// of zero earns the full reward.
pub open spec fn reward_of_error(error: i64, target_rate: i32) -> i64 {
    clamp(
        sat_div(sat_sub(target_divisor(target_rate), error), target_divisor(target_rate)),
        MIN_REWARD,
        MAX_REWARD,
    )
}

/// The reward for a firing rate against a target.
pub open spec fn reward_of(firing_rate: i32, target_rate: i32) -> i64 {
    reward_of_error(
        error_of(whole(firing_rate as int), target_divisor(target_rate)),
        target_rate,
    )
}

/// The reward for a presentation. The presented class should reach the
/// target and the other classes should stay silent; the larger of the two
/// errors decides.
pub open spec fn presentation_reward_of(correct: i32, wrong: i32, target_rate: i32) -> i64 {
    let correct_error = error_of(whole(correct as int), whole(target_rate as int));
    let wrong_error = error_of(whole(wrong as int), 0);
    if correct_error > wrong_error {
        reward_of_error(correct_error, target_rate)
    } else {
        reward_of_error(wrong_error, target_rate)
    }
}

/// The distance of an observed rate from its target: `|target - observed|`.
pub fn error(firing_rate: i64, target_rate: i64) -> (e: i64)
    ensures
        e == error_of(firing_rate, target_rate),
        e >= 0,
{
    fixed_abs(fixed_sub(target_rate, firing_rate))
}

fn divisor(target_rate: i32) -> (d: i64)
    ensures
        d == target_divisor(target_rate),
{
    if target_rate == 0 {
        ZERO_TARGET
    } else {
        from_whole(target_rate)
    }
}

/// The reward for an error against a target rate.
pub fn reward_for_error(error: i64, target_rate: i32) -> (r: i64)
    ensures
        r == reward_of_error(error, target_rate),
        MIN_REWARD <= r <= MAX_REWARD,
{
    let target: i64 = divisor(target_rate);
    fixed_clamp(fixed_div(fixed_sub(target, error), target), MIN_REWARD, MAX_REWARD)
}

/// The reward for a firing rate against a target rate:
/// `clamp(1 - |target - firing| / target, -1, 1)`.
pub fn reward(firing_rate: i32, target_rate: i32) -> (r: i64)
    ensures
        r == reward_of(firing_rate, target_rate),
        MIN_REWARD <= r <= MAX_REWARD,
{
    reward_for_error(error(from_whole(firing_rate), divisor(target_rate)), target_rate)
}

/// The reward for a presentation in which the presented class fired
/// `correct` times and the other classes `wrong` times.
pub fn presentation_reward(correct: i32, wrong: i32, target_rate: i32) -> (r: i64)
    ensures
        r == presentation_reward_of(correct, wrong, target_rate),
        MIN_REWARD <= r <= MAX_REWARD,
{
    let correct_error: i64 = error(from_whole(correct), from_whole(target_rate));
    let wrong_error: i64 = error(from_whole(wrong), 0);
    if correct_error > wrong_error {
        reward_for_error(correct_error, target_rate)
    } else {
        reward_for_error(wrong_error, target_rate)
    }
}

/// The state of the presentation schedule.
#[derive(Debug)]
pub struct EncoderState {
    pub next_presentation_time: i64,
    pub time_between_classes: i64,
    pub current_class: Class,
    pub encoders: Vec<(Class, PopulationEncoder)>,
}

impl Default for EncoderState {
    /// Presents `Hello` first, for windows of five seconds, with no
    /// populations yet.
    fn default() -> (state: EncoderState)
        ensures
            state.current_class == Class::Hello,
            state.encoders@.len() == 0,
            state.time_between_classes == 5 * SCALE,
            state.next_presentation_time == 5 * SCALE,
    {
        EncoderState {
            current_class: Class::Hello,
            encoders: Vec::new(),
            time_between_classes: 5_000_000,
            next_presentation_time: 5_000_000,
        }
    }
}

/// The spikes counted so far over the output neurons, and the class of the
/// next output neuron.
#[derive(Clone, Copy, Debug)]
pub struct ClassTally {
    pub correct: i32,
    pub wrong: i32,
    pub class: Class,
}

/// An output neuron: one of the sixth layer that has a recorder.
pub open spec fn is_output(entry: NeuronEntry) -> bool {
    entry.layer == ColumnLayer::L6 && entry.recorder.is_some()
}

/// A count that stops at the greatest `i32`.
pub open spec fn capped(n: int) -> i32 {
    if n > i32::MAX as int {
        i32::MAX
    } else if n < 0 {
        0i32
    } else {
        n as i32
    }
}

/// The tally over the first `k` neurons. The output neurons stand for the
/// classes in turn, starting with `Hello`; the spikes that one recorded at
/// or after `since` count as correct if it stands for the presented class
/// and as wrong if not.
pub open spec fn tallied(entries: Seq<NeuronEntry>, since: i64, presented: Class, k: nat) -> ClassTally
    decreases k,
{
    if k == 0 {
        ClassTally { correct: 0, wrong: 0, class: Class::Hello }
    } else {
        let before = tallied(entries, since, presented, (k - 1) as nat);
        let entry = entries[k - 1];
        if is_output(entry) {
            let spikes = count_since(entry.recorder.unwrap()@, since);
            if before.class == presented {
                ClassTally {
                    correct: capped(before.correct + spikes),
                    wrong: before.wrong,
                    class: before.class.other(),
                }
            } else {
                ClassTally {
                    correct: before.correct,
                    wrong: capped(before.wrong + spikes),
                    class: before.class.other(),
                }
            }
        } else {
            before
        }
    }
}

fn add_count(total: i32, spikes: usize) -> (r: i32)
    requires
        total >= 0,
    ensures
        r == capped(total + spikes),
        r >= 0,
{
    let room: i32 = i32::MAX - total;
    if spikes > room as usize {
        i32::MAX
    } else {
        total + spikes as i32
    }
}

/// Counts the spikes that the output neurons recorded at or after `since`,
/// apart for the presented class and for the others.
pub fn class_spike_counts(graph: &SimulationGraph, since: i64, presented: Class) -> (tally:
    ClassTally)
    ensures
        tally == tallied(graph.neurons@, since, presented, graph.neurons@.len()),
{
    let mut tally: ClassTally = ClassTally { correct: 0, wrong: 0, class: Class::Hello };
    let mut i: usize = 0;
    while i < graph.neurons.len()
        invariant
            0 <= i <= graph.neurons@.len(),
            tally.correct >= 0,
            tally.wrong >= 0,
            tally == tallied(graph.neurons@, since, presented, i as nat),
        decreases graph.neurons@.len() - i,
    {
        if graph.neurons[i].layer == ColumnLayer::L6 {
            match &graph.neurons[i].recorder {
                Some(recorder) => {
                    let spikes: usize = recorder.spikes_since(since);
                    if tally.class == presented {
                        tally.correct = add_count(tally.correct, spikes);
                    } else {
                        tally.wrong = add_count(tally.wrong, spikes);
                    }
                    tally.class = tally.class.next();
                },
                None => {},
            }
        }
        i = i + 1;
    }
    tally
}

/// What is in a slot after a deferred change is applied scaled by a reward:
/// a plastic synapse takes it, all else stays.
pub open spec fn reward_applied(slot: Option<Synapse>, delta_weight: i64, reward: i64) -> Option<
    Synapse,
> {
    match slot {
        Some(Synapse::Stdp(s)) => Some(Synapse::Stdp(s.rewarded(delta_weight, reward))),
        _ => slot,
    }
}

/// The slots after the first `k` events were applied in queue order, each
/// scaled by `reward`. An event whose synapse is gone changes nothing.
pub open spec fn rewarded_synapses(
    synapses: Seq<Option<Synapse>>,
    events: Seq<DeferredStdpEvent>,
    reward: i64,
    k: nat,
) -> Seq<Option<Synapse>>
    decreases k,
{
    if k == 0 {
        synapses
    } else {
        let before = rewarded_synapses(synapses, events, reward, (k - 1) as nat);
        let event = events[k - 1];
        if event.synapse < before.len() {
            before.update(
                event.synapse as int,
                reward_applied(before[event.synapse as int], event.delta_weight, reward),
            )
        } else {
            before
        }
    }
}

/// Applying events keeps the number of slots.
pub proof fn lemma_rewarded_keeps_length(
    synapses: Seq<Option<Synapse>>,
    events: Seq<DeferredStdpEvent>,
    reward: i64,
    k: nat,
)
    ensures
        rewarded_synapses(synapses, events, reward, k).len() == synapses.len(),
    decreases k,
{
    if k > 0 {
        lemma_rewarded_keeps_length(synapses, events, reward, (k - 1) as nat);
    }
}

/// Drains the deferred events. Each is applied to its synapse, if that is
/// still in the graph and plastic:
/// `weight = clamp(weight + delta_weight * reward, w_min, w_max)`.
/// A reward of one applies the changes as they are.
pub fn reward_modulated_stdp(
    deferred: &mut Vec<DeferredStdpEvent>,
    graph: &mut SimulationGraph,
    reward: i64,
)
    ensures
        final(deferred)@.len() == 0,
        final(graph).neurons@ == old(graph).neurons@,
        final(graph).synapses@ == rewarded_synapses(
            old(graph).synapses@,
            old(deferred)@,
            reward,
            old(deferred)@.len(),
        ),
{
    let mut e: usize = 0;
    while e < deferred.len()
        invariant
            deferred@ == old(deferred)@,
            graph.neurons@ == old(graph).neurons@,
            graph.synapses@.len() == old(graph).synapses@.len(),
            0 <= e <= deferred@.len(),
            graph.synapses@ == rewarded_synapses(old(graph).synapses@, deferred@, reward, e as nat),
        decreases deferred@.len() - e,
    {
        let event: DeferredStdpEvent = deferred[e];
        let ghost before = graph.synapses@;
        if event.synapse < graph.synapses.len() {
            match &mut graph.synapses[event.synapse] {
                Some(Synapse::Stdp(s)) => {
                    s.apply_reward(event.delta_weight, reward);
                },
                _ => {},
            }
            assert(graph.synapses@ =~= before.update(
                event.synapse as int,
                reward_applied(before[event.synapse as int], event.delta_weight, reward),
            ));
        }
        e = e + 1;
    }
    deferred.clear();
}

/// How the entry of a neuron changes when a class is presented: a member of
/// the population receives a current between 1.6 and 1.8, and nothing else
/// changes.
pub open spec fn stimulated(before: NeuronEntry, after: NeuronEntry, member: bool) -> bool {
    &&& after.layer == before.layer
    &&& after.recorder == before.recorder
    &&& if member {
        exists|current: i64|
            STIMULUS_MIN <= current <= STIMULUS_MAX && after.neuron
                == #[trigger] before.neuron.injected(current)
    } else {
        after.neuron == before.neuron
    }
}

fn is_member(population: &Vec<NeuronId>, id: NeuronId) -> (r: bool)
    ensures
        r == population@.contains(id),
{
    let mut k: usize = 0;
    while k < population.len()
        invariant
            0 <= k <= population@.len(),
            forall|j: int| 0 <= j < k ==> population@[j] != id,
        decreases population@.len() - k,
    {
        if population[k] == id {
            return true;
        }
        k = k + 1;
    }
    false
}

/// Presents a class: injects a current drawn between 1.6 and 1.8 into every
/// neuron of the graph that is in `population`, once each, with a draw of
/// its own.
pub fn stimulate_population(graph: &mut SimulationGraph, population: &Vec<NeuronId>)
    ensures
        final(graph).synapses@ == old(graph).synapses@,
        final(graph).neurons@.len() == old(graph).neurons@.len(),
        forall|i: int|
            0 <= i < old(graph).neurons@.len() ==> stimulated(
                old(graph).neurons@[i],
                #[trigger] final(graph).neurons@[i],
                population@.contains(i as usize),
            ),
{
    let mut i: usize = 0;
    while i < graph.neurons.len()
        invariant
            graph.synapses@ == old(graph).synapses@,
            graph.neurons@.len() == old(graph).neurons@.len(),
            0 <= i <= graph.neurons@.len(),
            forall|k: int|
                0 <= k < i ==> stimulated(
                    old(graph).neurons@[k],
                    #[trigger] graph.neurons@[k],
                    population@.contains(k as usize),
                ),
            forall|k: int| i <= k < graph.neurons@.len() ==> graph.neurons@[k] == old(graph).neurons@[k],
        decreases graph.neurons@.len() - i,
    {
        if is_member(population, i) {
            let current: i64 = random_in_range(STIMULUS_MIN, STIMULUS_MAX);
            let _potential: Option<i64> = graph.inject_current(i, current);
            assert(graph.neurons@[i as int].neuron == old(graph).neurons@[i as int].neuron.injected(
                current,
            ));
        }
        i = i + 1;
    }
}

/// The first population among the first `k` encoders that presents `class`,
/// or none.
pub open spec fn population_of(
    encoders: Seq<(Class, PopulationEncoder)>,
    class: Class,
    k: nat,
) -> Seq<NeuronId>
    decreases k,
{
    if k == 0 {
        Seq::empty()
    } else if exists|j: int| 0 <= j < k - 1 && (#[trigger] encoders[j]).0 == class {
        population_of(encoders, class, (k - 1) as nat)
    } else if encoders[k - 1].0 == class {
        encoders[k - 1].1.neurons@
    } else {
        Seq::empty()
    }
}

/// The reward that is applied where `computed` came out: `computed` itself,
/// unless it is zero, which a draw between -2 and 2 replaces.
pub open spec fn reward_admissible(computed: i64, applied: i64) -> bool {
    if computed == 0 {
        EXPLORATION_MIN <= applied <= EXPLORATION_MAX
    } else {
        applied == computed
    }
}

/// The reward to apply for a computed one: a reward of zero would stall
/// learning, so a draw between -2 and 2 takes its place. Any other reward is
/// applied as it is, and nothing is drawn. The draw is over the whole range,
/// so it may itself be zero.
pub fn explore_if_zero(computed: i64) -> (applied: i64)
    ensures
        reward_admissible(computed, applied),
{
    if computed == 0 {
        random_in_range(EXPLORATION_MIN, EXPLORATION_MAX)
    } else {
        computed
    }
}

/// The reward computed at the end of a presentation window.
pub open spec fn window_reward(entries: Seq<NeuronEntry>, clock: Clock, encoder: EncoderState) -> i64 {
    let tally = tallied(
        entries,
        sat_sub(clock.time, encoder.time_between_classes),
        encoder.current_class,
        entries.len(),
    );
    presentation_reward_of(tally.correct, tally.wrong, TARGET_RATE)
}

/// Ends a presentation window once the clock has reached it; before that
/// nothing happens. The spikes that the output neurons recorded in the
/// window give the reward, and a reward of zero is replaced by a draw. All
/// deferred events are applied scaled by the reward and the queue is left
/// empty. Then the next window is scheduled, the next class becomes the
/// current one, and its population, if it has one, is stimulated.
pub fn insert_current(
    graph: &mut SimulationGraph,
    clock: &Clock,
    encoder: &mut EncoderState,
    deferred: &mut Vec<DeferredStdpEvent>,
)
    ensures
        final(graph).neurons@.len() == old(graph).neurons@.len(),
        final(encoder).time_between_classes == old(encoder).time_between_classes,
        final(encoder).encoders@ == old(encoder).encoders@,
        clock.time < old(encoder).next_presentation_time ==> {
            &&& final(graph).neurons@ == old(graph).neurons@
            &&& final(graph).synapses@ == old(graph).synapses@
            &&& final(deferred)@ == old(deferred)@
            &&& final(encoder).next_presentation_time == old(encoder).next_presentation_time
            &&& final(encoder).current_class == old(encoder).current_class
        },
        clock.time >= old(encoder).next_presentation_time ==> {
            &&& final(deferred)@.len() == 0
            &&& final(encoder).next_presentation_time == sat_add(
                clock.time,
                old(encoder).time_between_classes,
            )
            &&& final(encoder).current_class == old(encoder).current_class.other()
            &&& exists|reward: i64|
                reward_admissible(window_reward(old(graph).neurons@, *clock, *old(encoder)), reward)
                    && final(graph).synapses@ == #[trigger] rewarded_synapses(
                    old(graph).synapses@,
                    old(deferred)@,
                    reward,
                    old(deferred)@.len(),
                )
            &&& forall|i: int|
                0 <= i < old(graph).neurons@.len() ==> stimulated(
                    old(graph).neurons@[i],
                    #[trigger] final(graph).neurons@[i],
                    population_of(
                        old(encoder).encoders@,
                        old(encoder).current_class.other(),
                        old(encoder).encoders@.len(),
                    ).contains(i as usize),
                )
        },
{
    if clock.time < encoder.next_presentation_time {
        return ;
    }
    let since: i64 = fixed_sub(clock.time, encoder.time_between_classes);
    let tally: ClassTally = class_spike_counts(graph, since, encoder.current_class);
    let computed: i64 = presentation_reward(tally.correct, tally.wrong, TARGET_RATE);
    let reward: i64 = explore_if_zero(computed);
    reward_modulated_stdp(deferred, graph, reward);

    encoder.next_presentation_time = fixed_add(clock.time, encoder.time_between_classes);
    encoder.current_class = encoder.current_class.next();

    let mut k: usize = 0;
    while k < encoder.encoders.len()
        invariant
            0 <= k <= encoder.encoders@.len(),
            clock.time >= old(encoder).next_presentation_time,
            reward_admissible(window_reward(old(graph).neurons@, *clock, *old(encoder)), reward),
            graph.neurons@.len() == old(graph).neurons@.len(),
            encoder.encoders@ == old(encoder).encoders@,
            encoder.current_class == old(encoder).current_class.other(),
            encoder.time_between_classes == old(encoder).time_between_classes,
            encoder.next_presentation_time == sat_add(clock.time, old(encoder).time_between_classes),
            forall|j: int| 0 <= j < k ==> (#[trigger] encoder.encoders@[j]).0 != encoder.current_class,
            graph.neurons@ == old(graph).neurons@,
            deferred@.len() == 0,
            graph.synapses@ == rewarded_synapses(
                old(graph).synapses@,
                old(deferred)@,
                reward,
                old(deferred)@.len(),
            ),
        decreases encoder.encoders@.len() - k,
    {
        if encoder.encoders[k].0 == encoder.current_class {
            proof {
                lemma_population_found(encoder.encoders@, encoder.current_class, k as nat, encoder.encoders@.len());
            }
            stimulate_population(graph, &encoder.encoders[k].1.neurons);
            return ;
        }
        k = k + 1;
    }
    proof {
        lemma_population_missing(encoder.encoders@, encoder.current_class, encoder.encoders@.len());
        assert forall|i: int| 0 <= i < old(graph).neurons@.len() implies stimulated(
            old(graph).neurons@[i],
            #[trigger] graph.neurons@[i],
            Seq::<NeuronId>::empty().contains(i as usize),
        ) by {}
    }
}

/// Where encoder `first` is the first that presents `class`, its population
/// is the one found.
pub proof fn lemma_population_found(
    encoders: Seq<(Class, PopulationEncoder)>,
    class: Class,
    first: nat,
    k: nat,
)
    requires
        first < k <= encoders.len(),
        encoders[first as int].0 == class,
        forall|j: int| 0 <= j < first ==> (#[trigger] encoders[j]).0 != class,
    ensures
        population_of(encoders, class, k) == encoders[first as int].1.neurons@,
    decreases k,
{
    if k - 1 > first {
        lemma_population_found(encoders, class, first, (k - 1) as nat);
        assert(encoders[first as int].0 == class);
    }
}

/// Where no encoder presents `class`, no population is found.
pub proof fn lemma_population_missing(encoders: Seq<(Class, PopulationEncoder)>, class: Class, k: nat)
    requires
        k <= encoders.len(),
        forall|j: int| 0 <= j < k ==> (#[trigger] encoders[j]).0 != class,
    ensures
        population_of(encoders, class, k) == Seq::<NeuronId>::empty(),
    decreases k,
{
    if k > 0 {
        lemma_population_missing(encoders, class, (k - 1) as nat);
    }
}

/// A target rate that is not negative gives a positive divisor.
pub proof fn lemma_divisor_positive(target_rate: i32)
    requires
        target_rate >= 0,
    ensures
        target_divisor(target_rate) > 0,
        target_rate > 0 ==> target_divisor(target_rate) == target_rate * SCALE,
{
    assert(target_rate > 0 ==> 0 < target_rate * 1_000_000 <= i64::MAX) by (nonlinear_arith)
        requires
            0 <= target_rate <= 0x7fff_ffff,
    ;
}

/// The reward lies between -1 and 1, it is 1 where there is no error, and
/// against a target that is not negative it never rises when the error
/// grows.
pub proof fn lemma_reward_falls_with_error(smaller: i64, larger: i64, target_rate: i32)
    requires
        smaller <= larger,
        target_rate >= 0,
    ensures
        MIN_REWARD <= reward_of_error(larger, target_rate) <= reward_of_error(
            smaller,
            target_rate,
        ) <= MAX_REWARD,
        reward_of_error(0, target_rate) == MAX_REWARD,
{
    let target = target_divisor(target_rate);
    lemma_divisor_positive(target_rate);
    lemma_div_monotone(sat_sub(target, larger), sat_sub(target, smaller), target);
    lemma_div_against_divisor(sat_sub(target, 0), target);
}

/// Against a target that is not negative, the full reward is earned
/// exactly where the error is zero or less, and the least reward from an
/// error of twice the target on.
pub proof fn lemma_full_reward_only_without_error(error: i64, target_rate: i32)
    requires
        target_rate >= 0,
    ensures
        error > 0 ==> reward_of_error(error, target_rate) < MAX_REWARD,
        error <= 0 ==> reward_of_error(error, target_rate) == MAX_REWARD,
        error >= 2 * target_divisor(target_rate) ==> reward_of_error(error, target_rate)
            == MIN_REWARD,
{
    let target = target_divisor(target_rate);
    lemma_divisor_positive(target_rate);
    lemma_div_against_divisor(sat_sub(target, error), target);
}

/// Against a positive target the reward for a firing rate is 1 exactly
/// when the rate equals the target.
pub proof fn lemma_full_reward_only_on_target(firing_rate: i32, target_rate: i32)
    requires
        target_rate > 0,
    ensures
        reward_of(firing_rate, target_rate) == MAX_REWARD <==> firing_rate == target_rate,
{
    lemma_divisor_positive(target_rate);
    let target = target_divisor(target_rate);
    let observed = whole(firing_rate as int);
    assert(-0x8000_0000 * 1_000_000 <= firing_rate * 1_000_000 <= 0x7fff_ffff * 1_000_000)
        by (nonlinear_arith)
        requires
            -0x8000_0000 <= firing_rate <= 0x7fff_ffff,
    ;
    assert(observed == firing_rate * SCALE);
    assert(observed == target <==> firing_rate == target_rate) by (nonlinear_arith)
        requires
            observed == firing_rate * 1_000_000,
            target == target_rate * 1_000_000,
    ;
    lemma_full_reward_only_without_error(error_of(observed, target), target_rate);
}

/// Applying deferred events leaves every plastic synapse plastic with its
/// constants, and one whose weight lay within ordered bounds keeps it
/// there.
pub proof fn lemma_rewarded_weights_stay_in_bounds(
    synapses: Seq<Option<Synapse>>,
    events: Seq<DeferredStdpEvent>,
    reward: i64,
    k: nat,
    id: int,
)
    requires
        0 <= id < synapses.len(),
    ensures
        rewarded_synapses(synapses, events, reward, k).len() == synapses.len(),
        match synapses[id] {
            Some(Synapse::Stdp(before)) => match rewarded_synapses(synapses, events, reward, k)[id] {
                Some(Synapse::Stdp(after)) => {
                    &&& after.stdp_params == before.stdp_params
                    &&& before.stdp_params.wf() && before.stdp_params.w_min <= before.weight
                        <= before.stdp_params.w_max ==> after.stdp_params.w_min <= after.weight
                        <= after.stdp_params.w_max
                },
                _ => false,
            },
            _ => rewarded_synapses(synapses, events, reward, k)[id] == synapses[id],
        },
    decreases k,
{
    if k > 0 {
        lemma_rewarded_weights_stay_in_bounds(synapses, events, reward, (k - 1) as nat, id);
    }
}

} // verus!
