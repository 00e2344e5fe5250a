//! Encoders that turn characters and classes into input for the network.

use vstd::prelude::*;
use vstd::string::StrSliceExecFns;
use crate::fixed::{
    fixed_add, fixed_div, fixed_mul, from_count, sat_add, sat_div, sat_mul, whole, SCALE,
};
use crate::random::random_in_range;
use crate::synapses::NeuronId;

verus! {

/// The greatest draw that decides whether a neuron joins a population: one
/// unit below one.
pub const MAX_DRAW: i64 = 999_999;

/// Bit `i` of the low byte of the code point of `c`.
pub open spec fn char_bit(c: char, i: nat) -> u8 {
    if ((c as u32) >> (i as u32)) & 1 == 1 {
        1u8
    } else {
        0u8
    }
}

/// The bits of the low byte of the code point of `c`, least significant
/// first.
pub fn char_to_binary(c: char) -> (binary: [u8; 8])
    ensures
        forall|i: nat| i < 8 ==> binary@[i as int] == char_bit(c, i),
{
    let code: u32 = c as u32;
    let mut binary: [u8; 8] = [0u8;8];
    let mut i: usize = 0;
    while i < 8
        invariant
            0 <= i <= 8,
            code == c as u32,
            forall|k: nat| k < i ==> binary@[k as int] == char_bit(c, k),
        decreases 8 - i,
    {
        let shift: u32 = i as u32;
        let bit: u32 = (code >> shift) & 1;
        assert(bit == 0 || bit == 1) by (bit_vector)
            requires
                bit == (code >> shift) & 1,
        ;
        binary[i] = bit as u8;
        i = i + 1;
    }
    binary
}

/// The time of a spike in position `i` of the eight positions of a frame:
/// `i * time_frame / 8`.
pub open spec fn spike_time(i: nat, time_frame: i64) -> i64 {
    sat_div(sat_mul(whole(i as int), time_frame), whole(8))
}

/// The spikes of the first `k` positions of the frame of `c`. The bits are
/// taken most significant first, and a set bit gives a spike.
pub open spec fn char_spikes(c: char, time_frame: i64, k: nat) -> Seq<i64>
    decreases k,
{
    if k == 0 {
        Seq::empty()
    } else {
        let before = char_spikes(c, time_frame, (k - 1) as nat);
        if k <= 8 && char_bit(c, (8 - k) as nat) == 1 {
            before.push(spike_time((k - 1) as nat, time_frame))
        } else {
            before
        }
    }
}

/// Each of `times` moved later by `offset`.
pub open spec fn delayed(times: Seq<i64>, offset: i64) -> Seq<i64> {
    Seq::new(times.len(), |i: int| sat_add(times[i], offset))
}

/// The spikes of the first `k` characters of `s`, where every character has
/// a frame of `frame` and the spikes of character `i` are moved later by `i`.
pub open spec fn string_spikes(s: Seq<char>, frame: i64, k: nat) -> Seq<i64>
    decreases k,
{
    if k == 0 {
        Seq::empty()
    } else {
        string_spikes(s, frame, (k - 1) as nat) + delayed(
            char_spikes(s[k - 1], frame, 8),
            whole(k - 1),
        )
    }
}

/// The spike train of a character over `time_frame`: the frame is cut in
/// eight, and each set bit, most significant first, gives a spike at the
/// start of its part.
pub fn char_to_spike_train(c: char, time_frame: i64) -> (spike_train: Vec<i64>)
    ensures
        spike_train@ == char_spikes(c, time_frame, 8),
{
    let binary: [u8; 8] = char_to_binary(c);
    let mut spike_train: Vec<i64> = Vec::new();
    let mut i: usize = 0;
    while i < 8
        invariant
            0 <= i <= 8,
            forall|k: nat| k < 8 ==> binary@[k as int] == char_bit(c, k),
            spike_train@ == char_spikes(c, time_frame, i as nat),
        decreases 8 - i,
    {
        if binary[7 - i] == 1 {
            spike_train.push(fixed_div(fixed_mul(from_count(i), time_frame), from_count(8)));
        }
        i = i + 1;
    }
    spike_train
}

/// The spike train of a string over `time_frame`. Every character gets an
/// equal share of the frame, `time_frame` divided by the length of the
/// string in bytes, and the spikes of character `i` are moved later by `i`.
pub fn string_to_spike_train(s: &str, time_frame: i64) -> (spike_train: Vec<i64>)
    ensures
        spike_train@ == string_spikes(
            s@,
            sat_div(time_frame, whole(s.len() as int)),
            s@.len(),
        ),
{
    let frame: i64 = fixed_div(time_frame, from_count(s.len()));
    let count: usize = s.unicode_len();
    let mut spike_train: Vec<i64> = Vec::new();
    let mut index: usize = 0;
    while index < count
        invariant
            0 <= index <= count,
            count == s@.len(),
            spike_train@ == string_spikes(s@, frame, index as nat),
        decreases count - index,
    {
        let char_spike_train: Vec<i64> = char_to_spike_train(s.get_char(index), frame);
        let offset: i64 = from_count(index);
        let ghost before = spike_train@;
        let mut k: usize = 0;
        while k < char_spike_train.len()
            invariant
                0 <= k <= char_spike_train@.len(),
                spike_train@ == before + delayed(char_spike_train@, offset).take(k as int),
            decreases char_spike_train@.len() - k,
        {
            spike_train.push(fixed_add(char_spike_train[k], offset));
            assert(spike_train@ =~= before + delayed(char_spike_train@, offset).take(k + 1));
            k = k + 1;
        }
        assert(delayed(char_spike_train@, offset).take(k as int) =~= delayed(
            char_spike_train@,
            offset,
        ));
        index = index + 1;
    }
    spike_train
}

/// Those of the first `k` of `neurons` whose draw is below `sample_rate`, in
/// their order. A neuron without a draw is left out.
pub open spec fn sampled(neurons: Seq<NeuronId>, draws: Seq<i64>, sample_rate: i64, k: nat) -> Seq<
    NeuronId,
>
    decreases k,
{
    if k == 0 {
        Seq::empty()
    } else {
        let before = sampled(neurons, draws, sample_rate, (k - 1) as nat);
        if k <= draws.len() && draws[k - 1] < sample_rate {
            before.push(neurons[k - 1])
        } else {
            before
        }
    }
}

/// Whether `draws` holds `n` draws that are each at least zero and below one.
pub open spec fn unit_draws(draws: Seq<i64>, n: nat) -> bool {
    draws.len() == n && forall|i: int| 0 <= i < n ==> 0 <= #[trigger] draws[i] <= MAX_DRAW
}

/// Draws `n` numbers that are each at least zero and below one.
pub(crate) fn draw_units(n: usize) -> (draws: Vec<i64>)
    ensures
        unit_draws(draws@, n as nat),
{
    let mut draws: Vec<i64> = Vec::new();
    let mut i: usize = 0;
    while i < n
        invariant
            0 <= i <= n,
            unit_draws(draws@, i as nat),
        decreases n - i,
    {
        draws.push(random_in_range(0, MAX_DRAW));
        i = i + 1;
    }
    draws
}

/// The neurons that are driven to present one class.
#[derive(Debug)]
pub struct PopulationEncoder {
    pub neurons: Vec<NeuronId>,
}

impl PopulationEncoder {
    /// The population of those of `neurons` whose draw is below
    /// `sample_rate`.
    pub fn from_draws(neurons: &Vec<NeuronId>, sample_rate: i64, draws: &Vec<i64>) -> (encoder:
        PopulationEncoder)
        ensures
            encoder.neurons@ == sampled(neurons@, draws@, sample_rate, neurons@.len()),
    {
        let mut selected: Vec<NeuronId> = Vec::new();
        let mut i: usize = 0;
        while i < neurons.len()
            invariant
                0 <= i <= neurons@.len(),
                selected@ == sampled(neurons@, draws@, sample_rate, i as nat),
            decreases neurons@.len() - i,
        {
            if i < draws.len() && draws[i] < sample_rate {
                selected.push(neurons[i]);
            }
            i = i + 1;
        }
        PopulationEncoder { neurons: selected }
    }

    /// A random population: each of `neurons` joins with a probability of
    /// `sample_rate`, a number between zero and one, by a draw of its own.
    pub fn from_sample_rate(neurons: &Vec<NeuronId>, sample_rate: i64) -> (encoder:
        PopulationEncoder)
        ensures
            exists|draws: Seq<i64>|
                unit_draws(draws, neurons@.len()) && encoder.neurons@ == #[trigger] sampled(
                    neurons@,
                    draws,
                    sample_rate,
                    neurons@.len(),
                ),
    {
        let draws: Vec<i64> = draw_units(neurons.len());
        PopulationEncoder::from_draws(neurons, sample_rate, &draws)
    }
}

/// A sample is drawn from the neurons it was asked of: each of its members
/// is one of them, and it has no more members than there are neurons.
pub proof fn lemma_sampled_from_neurons(
    neurons: Seq<NeuronId>,
    draws: Seq<i64>,
    sample_rate: i64,
    k: nat,
)
    requires
        k <= neurons.len(),
    ensures
        sampled(neurons, draws, sample_rate, k).len() <= k,
        forall|i: int|
            0 <= i < sampled(neurons, draws, sample_rate, k).len() ==> neurons.contains(
                #[trigger] sampled(neurons, draws, sample_rate, k)[i],
            ),
    decreases k,
{
    if k > 0 {
        lemma_sampled_from_neurons(neurons, draws, sample_rate, (k - 1) as nat);
        assert(neurons.contains(neurons[k - 1]));
    }
}

/// With a sample rate of one or more every neuron joins the population, and
/// with a rate of zero or less none does.
pub proof fn lemma_sample_rate_extremes(neurons: Seq<NeuronId>, draws: Seq<i64>, sample_rate: i64, k: nat)
    requires
        k <= neurons.len(),
        unit_draws(draws, neurons.len()),
    ensures
        sample_rate >= SCALE ==> sampled(neurons, draws, sample_rate, k) == neurons.take(k as int),
        sample_rate <= 0 ==> sampled(neurons, draws, sample_rate, k).len() == 0,
    decreases k,
{
    if k > 0 {
        lemma_sample_rate_extremes(neurons, draws, sample_rate, (k - 1) as nat);
        if sample_rate >= SCALE {
            assert(0 <= draws[k - 1] <= MAX_DRAW);
            assert(neurons.take(k as int) =~= neurons.take(k - 1).push(neurons[k - 1]));
        } else if sample_rate <= 0 {
            assert(0 <= draws[k - 1] <= MAX_DRAW);
        }
    } else {
        assert(sampled(neurons, draws, sample_rate, k) =~= neurons.take(k as int));
    }
}

} // verus!
