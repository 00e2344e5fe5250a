//! Telemetry: series of potentials, weights and spikes over time, and small
//! statistics over them.

use vstd::prelude::*;
use crate::fixed::{fixed_add, fixed_div, fixed_sub, from_count, sat_add, sat_div, sat_sub, whole};
use crate::neurons::Neuron;
use crate::synapses::Synapse;
use crate::time::Clock;

verus! {

/// How much history a value recorder keeps.
#[derive(Clone, Copy, Debug)]
pub struct ValueRecorderConfig {
    /// The length in seconds of the window that a value recorder keeps.
    pub window_size: usize,
}

/// How much history a plot shows.
#[derive(Clone, Copy, Debug)]
pub struct PlotterConfig {
    pub window_size: usize,
}

impl Default for PlotterConfig {
    fn default() -> (config: PlotterConfig)
        ensures
            config.window_size == 0,
    {
        PlotterConfig { window_size: 0 }
    }
}

/// Records a potential or a weight over time, as pairs of a time and a
/// value.
#[derive(Debug)]
pub struct ValueRecorder {
    pub values: Vec<(i64, i64)>,
}

/// Whether an entry recorded at `time` is still within a window of
/// `window_size` seconds that ends at `now`.
pub open spec fn in_window(now: i64, window_size: usize, time: i64) -> bool {
    sat_sub(now, time) < whole(window_size as int)
}

impl ValueRecorder {
    /// An empty recorder.
    pub fn new() -> (r: ValueRecorder)
        ensures
            r.values@.len() == 0,
    {
        ValueRecorder { values: Vec::new() }
    }

    /// The series after `value` is offered at `time`: it is added unless it
    /// repeats the last value.
    pub open spec fn pushed(values: Seq<(i64, i64)>, time: i64, value: i64) -> Seq<(i64, i64)> {
        if values.len() > 0 && values.last().1 == value {
            values
        } else {
            values.push((time, value))
        }
    }

    /// Adds a value to the series, unless it is the same as the last one.
    pub fn push(&mut self, time: i64, value: i64)
        ensures
            final(self).values@ == ValueRecorder::pushed(old(self).values@, time, value),
    {
        let n: usize = self.values.len();
        if n > 0 && self.values[n - 1].1 == value {
            return ;
        }
        self.values.push((time, value));
    }
}

impl Default for ValueRecorder {
    fn default() -> (r: ValueRecorder)
        ensures
            r.values@.len() == 0,
    {
        ValueRecorder { values: Vec::new() }
    }
}

/// Appends the potential of a neuron, with the time of the clock, to a
/// series.
pub fn record_membrane_potential(recorder: &mut ValueRecorder, neuron: &Neuron, clock: &Clock)
    ensures
        final(recorder).values@ == old(recorder).values@.push((clock.time, neuron.potential())),
{
    recorder.values.push((clock.time, neuron.get_membrane_potential()));
}

/// Appends the weight of a synapse, with the time of the clock, to a series.
pub fn record_synapse_weight(recorder: &mut ValueRecorder, synapse: &Synapse, clock: &Clock)
    ensures
        final(recorder).values@ == old(recorder).values@.push((clock.time, synapse.weight())),
{
    recorder.values.push((clock.time, synapse.get_weight()));
}

/// Drops from a series what has left the window that ends at the time of the
/// clock. What stays keeps its order.
pub fn clean_recorder_history(
    recorder: &mut ValueRecorder,
    clock: &Clock,
    history_config: &ValueRecorderConfig,
)
    ensures
        final(recorder).values@ == old(recorder).values@.filter(
            |entry: (i64, i64)| in_window(clock.time, history_config.window_size, entry.0),
        ),
{
    let ghost keep = |entry: (i64, i64)| in_window(clock.time, history_config.window_size, entry.0);
    let window: i64 = from_count(history_config.window_size);
    let mut kept: Vec<(i64, i64)> = Vec::new();
    let mut i: usize = 0;
    while i < recorder.values.len()
        invariant
            recorder.values@ == old(recorder).values@,
            0 <= i <= recorder.values@.len(),
            window == whole(history_config.window_size as int),
            keep == |entry: (i64, i64)| in_window(clock.time, history_config.window_size, entry.0),
            kept@ == recorder.values@.take(i as int).filter(keep),
        decreases recorder.values@.len() - i,
    {
        let entry: (i64, i64) = recorder.values[i];
        proof {
            assert(recorder.values@.take(i + 1) =~= recorder.values@.take(i as int).push(entry));
            recorder.values@.take(i as int).lemma_filter_push(entry, keep);
        }
        if fixed_sub(clock.time, entry.0) < window {
            kept.push(entry);
        }
        i = i + 1;
    }
    assert(recorder.values@.take(i as int) =~= recorder.values@);
    recorder.values = kept;
}

/// A point of the course of a membrane potential.
#[derive(Clone, Copy, Debug)]
pub struct MembranePlotPoint {
    pub potential: i64,
    pub time: i64,
}

/// The course of the membrane potential of a neuron, and its spikes.
#[derive(Debug)]
pub struct MembranePlotter {
    pub points: Vec<MembranePlotPoint>,
    pub spikes: Vec<i64>,
}

impl MembranePlotter {
    pub fn new() -> (plotter: MembranePlotter)
        ensures
            plotter.points@.len() == 0,
            plotter.spikes@.len() == 0,
    {
        MembranePlotter { points: Vec::new(), spikes: Vec::new() }
    }

    pub fn add_point(&mut self, potential: i64, time: i64)
        ensures
            final(self).points@ == old(self).points@.push(MembranePlotPoint { potential, time }),
            final(self).spikes@ == old(self).spikes@,
    {
        self.points.push(MembranePlotPoint { potential, time });
    }

    pub fn add_spike(&mut self, time: i64)
        ensures
            final(self).spikes@ == old(self).spikes@.push(time),
            final(self).points@ == old(self).points@,
    {
        self.spikes.push(time);
    }

    /// The points of the last `time_span` before `current_time`, in their
    /// order, each as its time and its potential.
    pub fn plot_points(&self, time_span: i64, current_time: i64) -> (shown: Vec<[i64; 2]>)
        ensures
            shown@.len() == self.points@.filter(
                |point: MembranePlotPoint| point.time >= sat_sub(current_time, time_span),
            ).len(),
            forall|k: int|
                0 <= k < shown@.len() ==> (#[trigger] shown@[k])[0] == self.points@.filter(
                    |point: MembranePlotPoint| point.time >= sat_sub(current_time, time_span),
                )[k].time && shown@[k][1] == self.points@.filter(
                    |point: MembranePlotPoint| point.time >= sat_sub(current_time, time_span),
                )[k].potential,
    {
        let ghost recent = |point: MembranePlotPoint| point.time >= sat_sub(current_time, time_span);
        let from: i64 = fixed_sub(current_time, time_span);
        let mut shown: Vec<[i64; 2]> = Vec::new();
        let mut i: usize = 0;
        while i < self.points.len()
            invariant
                0 <= i <= self.points@.len(),
                from == sat_sub(current_time, time_span),
                recent == |point: MembranePlotPoint| point.time >= sat_sub(current_time, time_span),
                shown@.len() == self.points@.take(i as int).filter(recent).len(),
                forall|k: int|
                    0 <= k < shown@.len() ==> (#[trigger] shown@[k])[0] == self.points@.take(
                        i as int,
                    ).filter(recent)[k].time && shown@[k][1] == self.points@.take(i as int).filter(
                        recent,
                    )[k].potential,
            decreases self.points@.len() - i,
        {
            let point: MembranePlotPoint = self.points[i];
            proof {
                assert(self.points@.take(i + 1) =~= self.points@.take(i as int).push(point));
                self.points@.take(i as int).lemma_filter_push(point, recent);
            }
            if point.time >= from {
                shown.push([point.time, point.potential]);
            }
            i = i + 1;
        }
        assert(self.points@.take(i as int) =~= self.points@);
        shown
    }

    /// The spikes of the last `time_span` before `current_time`, in their
    /// order.
    pub fn spike_lines(&self, time_span: i64, current_time: i64) -> (shown: Vec<i64>)
        ensures
            shown@ == self.spikes@.filter(|time: i64| time >= sat_sub(current_time, time_span)),
    {
        let ghost recent = |time: i64| time >= sat_sub(current_time, time_span);
        let from: i64 = fixed_sub(current_time, time_span);
        let mut shown: Vec<i64> = Vec::new();
        let mut i: usize = 0;
        while i < self.spikes.len()
            invariant
                0 <= i <= self.spikes@.len(),
                from == sat_sub(current_time, time_span),
                recent == |time: i64| time >= sat_sub(current_time, time_span),
                shown@ == self.spikes@.take(i as int).filter(recent),
            decreases self.spikes@.len() - i,
        {
            let time: i64 = self.spikes[i];
            proof {
                assert(self.spikes@.take(i + 1) =~= self.spikes@.take(i as int).push(time));
                self.spikes@.take(i as int).lemma_filter_push(time, recent);
            }
            if time >= from {
                shown.push(time);
            }
            i = i + 1;
        }
        assert(self.spikes@.take(i as int) =~= self.spikes@);
        shown
    }
}

impl Default for MembranePlotter {
    fn default() -> (plotter: MembranePlotter)
        ensures
            plotter.points@.len() == 0,
            plotter.spikes@.len() == 0,
    {
        MembranePlotter::new()
    }
}

/// Appends the potential of a neuron, with the time of the clock, to its
/// plot.
pub fn update_plotters(plotter: &mut MembranePlotter, neuron: &Neuron, clock: &Clock)
    ensures
        final(plotter).points@ == old(plotter).points@.push(
            MembranePlotPoint { potential: neuron.potential(), time: clock.time },
        ),
        final(plotter).spikes@ == old(plotter).spikes@,
{
    plotter.add_point(neuron.get_membrane_potential(), clock.time);
}

/// The saturating sum of the first `k` of `values`, summed from the front.
pub open spec fn sum_of(values: Seq<i64>, k: nat) -> i64
    decreases k,
{
    if k == 0 {
        0
    } else {
        sat_add(sum_of(values, (k - 1) as nat), values[k - 1])
    }
}

/// The mean of `values`, or none if there are no values.
pub fn average(values: &Vec<i64>) -> (mean: Option<i64>)
    ensures
        values@.len() == 0 ==> mean.is_none(),
        values@.len() > 0 ==> mean == Some(
            sat_div(sum_of(values@, values@.len()), whole(values@.len() as int)),
        ),
{
    if values.len() == 0 {
        return None;
    }
    let mut sum: i64 = 0;
    let mut i: usize = 0;
    while i < values.len()
        invariant
            0 <= i <= values@.len(),
            sum == sum_of(values@, i as nat),
        decreases values@.len() - i,
    {
        sum = fixed_add(sum, values[i]);
        i = i + 1;
    }
    Some(fixed_div(sum, from_count(values.len())))
}

/// The pair in place `i` of two series zipped to the length of the longer:
/// where a series has ended its side is empty.
pub open spec fn zipped_at<A, B>(first: Seq<A>, second: Seq<B>, i: int) -> (Option<A>, Option<B>) {
    (
        if i < first.len() {
            Some(first[i])
        } else {
            None
        },
        if i < second.len() {
            Some(second[i])
        } else {
            None
        },
    )
}

/// Zips two series to the length of the longer one. Where one series has
/// ended its side of the pair is empty.
pub fn exhaustive_zip<A: Copy, B: Copy>(first: &Vec<A>, second: &Vec<B>) -> (pairs: Vec<
    (Option<A>, Option<B>),
>)
    ensures
        pairs@.len() == if first@.len() >= second@.len() {
            first@.len()
        } else {
            second@.len()
        },
        forall|i: int| 0 <= i < pairs@.len() ==> #[trigger] pairs@[i] == zipped_at(first@, second@, i),
{
    let mut pairs: Vec<(Option<A>, Option<B>)> = Vec::new();
    let mut i: usize = 0;
    while i < first.len() || i < second.len()
        invariant
            pairs@.len() == i,
            i <= first@.len() || i <= second@.len(),
            forall|k: int| 0 <= k < i ==> #[trigger] pairs@[k] == zipped_at(first@, second@, k),
        decreases
                (if first@.len() >= second@.len() {
                    first@.len()
                } else {
                    second@.len()
                }) - i,
    {
        let next1: Option<A> = if i < first.len() {
            Some(first[i])
        } else {
            None
        };
        let next2: Option<B> = if i < second.len() {
            Some(second[i])
        } else {
            None
        };
        pairs.push((next1, next2));
        i = i + 1;
    }
    pairs
}

} // verus!
