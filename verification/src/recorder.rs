//! A bounded history of the times at which a neuron fired.

use vstd::prelude::*;

verus! {

/// The capacity of a recorder made by `default`.
pub const DEFAULT_MAX_SPIKES: usize = 1000;

/// The history `spikes` after `time` is recorded under a capacity: `time`
/// goes to the end, and if that exceeds the capacity the oldest entry leaves.
pub open spec fn recorded(spikes: Seq<i64>, capacity: nat, time: i64) -> Seq<i64> {
    let pushed = spikes.push(time);
    if pushed.len() > capacity {
        pushed.subrange(1, pushed.len() as int)
    } else {
        pushed
    }
}

/// The history after each of `times` is recorded in turn.
pub open spec fn recorded_all(spikes: Seq<i64>, capacity: nat, times: Seq<i64>) -> Seq<i64>
    decreases times.len(),
{
    if times.len() == 0 {
        spikes
    } else {
        recorded(recorded_all(spikes, capacity, times.drop_last()), capacity, times.last())
    }
}

/// The last `n` entries of `s`, or all of `s` if it has fewer.
pub open spec fn most_recent(s: Seq<i64>, n: nat) -> Seq<i64> {
    if s.len() <= n {
        s
    } else {
        s.subrange(s.len() - n, s.len() as int)
    }
}

/// The number of entries of `spikes` that are at or after `from`.
pub open spec fn count_since(spikes: Seq<i64>, from: i64) -> nat
    decreases spikes.len(),
{
    if spikes.len() == 0 {
        0
    } else {
        count_since(spikes.drop_last(), from) + if spikes.last() >= from {
            1nat
        } else {
            0nat
        }
    }
}

/// Keeps the most recent fire times of one neuron, oldest first.
#[derive(Debug)]
pub struct SimpleSpikeRecorder {
    max_spikes: usize,
    spikes: Vec<i64>,
}

impl View for SimpleSpikeRecorder {
    type V = Seq<i64>;

    /// The recorded times, oldest first.
    closed spec fn view(&self) -> Seq<i64> {
        self.spikes@
    }
}

impl SimpleSpikeRecorder {
    /// The most entries that the recorder keeps.
    pub closed spec fn capacity(&self) -> nat {
        self.max_spikes as nat
    }

    /// The history is within the capacity.
    pub open spec fn wf(&self) -> bool {
        self@.len() <= self.capacity()
    }

    /// An empty recorder that keeps at most `max_spikes` entries.
    pub fn new(max_spikes: usize) -> (r: SimpleSpikeRecorder)
        ensures
            r@ == Seq::<i64>::empty(),
            r.capacity() == max_spikes,
            r.wf(),
    {
        SimpleSpikeRecorder { max_spikes, spikes: Vec::new() }
    }

    /// Records a spike at `time`, dropping the oldest entry if the history
    /// would grow beyond the capacity.
    pub fn record_spike(&mut self, time: i64)
        ensures
            final(self)@ == recorded(old(self)@, old(self).capacity(), time),
            final(self).capacity() == old(self).capacity(),
            old(self).wf() ==> final(self).wf(),
    {
        self.spikes.push(time);
        if self.spikes.len() > self.max_spikes {
            let _oldest: i64 = self.spikes.remove(0);
        }
        assert(self.spikes@ =~= recorded(old(self)@, old(self).capacity(), time));
    }

    /// The recorded times, oldest first.
    pub fn get_spikes(&self) -> (v: Vec<i64>)
        ensures
            v@ == self@,
    {
        let v: Vec<i64> = self.spikes.clone();
        assert(v@ =~= self.spikes@);
        v
    }

    /// The capacity.
    pub fn max_spikes(&self) -> (n: usize)
        ensures
            n == self.capacity(),
    {
        self.max_spikes
    }

    /// Counts the recorded spikes at or after `from`.
    pub fn spikes_since(&self, from: i64) -> (n: usize)
        ensures
            n == count_since(self@, from),
    {
        let mut n: usize = 0;
        let mut i: usize = 0;
        while i < self.spikes.len()
            invariant
                0 <= i <= self.spikes.len(),
                n <= i,
                n == count_since(self.spikes@.take(i as int), from),
            decreases self.spikes.len() - i,
        {
            proof {
                assert(self.spikes@.take(i + 1).drop_last() =~= self.spikes@.take(i as int));
            }
            if self.spikes[i] >= from {
                n = n + 1;
            }
            i = i + 1;
        }
        assert(self.spikes@.take(i as int) =~= self.spikes@);
        n
    }
}

impl Default for SimpleSpikeRecorder {
    fn default() -> (r: SimpleSpikeRecorder)
        ensures
            r@ == Seq::<i64>::empty(),
            r.capacity() == DEFAULT_MAX_SPIKES,
    {
        SimpleSpikeRecorder::new(DEFAULT_MAX_SPIKES)
    }
}

/// Recording into a history within its capacity keeps it within the
/// capacity, and keeps the most recent entries in their order.
pub proof fn lemma_recorded_keeps_most_recent(spikes: Seq<i64>, capacity: nat, time: i64)
    requires
        spikes.len() <= capacity,
    ensures
        recorded(spikes, capacity, time) == most_recent(spikes.push(time), capacity),
        recorded(spikes, capacity, time).len() <= capacity,
{
    assert(recorded(spikes, capacity, time) =~= most_recent(spikes.push(time), capacity));
}

/// After any run of recordings into an empty history, the history holds the
/// most recent entries of the run, as many as the capacity allows, oldest
/// first.
pub proof fn lemma_recorder_is_bounded_fifo(capacity: nat, times: Seq<i64>)
    ensures
        recorded_all(Seq::empty(), capacity, times) == most_recent(times, capacity),
        recorded_all(Seq::empty(), capacity, times).len() == if times.len() <= capacity {
            times.len()
        } else {
            capacity
        },
    decreases times.len(),
{
    if times.len() > 0 {
        let front = times.drop_last();
        lemma_recorder_is_bounded_fifo(capacity, front);
        let before = recorded_all(Seq::empty(), capacity, front);
        assert(before == most_recent(front, capacity));
        assert(times =~= front.push(times.last()));
        assert(recorded(before, capacity, times.last()) =~= most_recent(times, capacity));
    } else {
        assert(recorded_all(Seq::<i64>::empty(), capacity, times) =~= most_recent(times, capacity));
    }
}

} // verus!
