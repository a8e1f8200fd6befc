//! Event counters and samplers. Counters are keyed by type, detail and
//! direction; every detail-level count is mirrored into the `All` detail of
//! its type. Samplers keep a bounded window of recent values.

use vstd::prelude::*;
use crate::kvmap::{KvMap, MapKey};

verus! {

/// The subsystem a counter belongs to.
#[derive(Clone, Copy, Debug, PartialEq, Eq, Structural)]
pub enum StatType {
    Ledger,
    Message,
    Drop,
    Tcp,
    TcpChannels,
    TcpListener,
    BootstrapServer,
    Filter,
    Error,
}

/// The event counted.
#[derive(Clone, Copy, Debug, PartialEq, Eq, Structural)]
pub enum DetailType {
    All,
    Send,
    Receive,
    Invalid,
    NotAType,
    Keepalive,
    Publish,
    ConfirmReq,
    ConfirmAck,
    BulkPull,
    BulkPush,
    FrontierReq,
    NodeIdHandshake,
    BulkPullAccount,
    TelemetryReq,
    TelemetryAck,
    AscPullReq,
    AscPullAck,
    AcceptRejected,
    AcceptSuccess,
    AcceptFailure,
    ConnectSuccess,
    ConnectFailure,
    ConnectInitiate,
    ConnectRejected,
    MaxPerIp,
    MaxPerSubnetwork,
    ChannelAccepted,
    DuplicatePublish,
}

/// Whether the event was inbound or outbound.
#[derive(Clone, Copy, Debug, PartialEq, Eq, Structural)]
pub enum Direction {
    In,
    Out,
}

/// What a sampler observes.
#[derive(Clone, Copy, Debug, PartialEq, Eq, Structural)]
pub enum Sample {
    ActiveElectionDuration,
    BootstrapTagDuration,
}

/// The sides of the stats store a dump can pick.
#[derive(Clone, Copy, Debug, PartialEq, Eq, Structural)]
pub enum StatCategory {
    Counters,
    Samples,
}

/// A counter's identity.
#[derive(Clone, Copy, Debug, PartialEq, Eq, Structural)]
pub struct CounterKey {
    pub stat_type: StatType,
    pub detail: DetailType,
    pub dir: Direction,
}

impl CounterKey {
    pub fn new(stat_type: StatType, detail: DetailType, dir: Direction) -> (r: CounterKey)
        ensures
            r == (CounterKey { stat_type, detail, dir }),
    {
        CounterKey { stat_type, detail, dir }
    }
}

impl MapKey for CounterKey {
    fn key_eq(&self, other: &CounterKey) -> (r: bool)
        ensures
            r == (*self == *other),
    {
        self.stat_type == other.stat_type && self.detail == other.detail && self.dir == other.dir
    }
}

/// A sampler's identity.
#[derive(Clone, Copy, Debug, PartialEq, Eq, Structural)]
pub struct SamplerKey {
    pub sample: Sample,
}

impl SamplerKey {
    pub fn new(sample: Sample) -> (r: SamplerKey)
        ensures
            r == (SamplerKey { sample }),
    {
        SamplerKey { sample }
    }
}

/// One counter cell.
#[derive(Clone, Copy, Debug, PartialEq, Eq, Structural)]
pub struct CounterEntry {
    pub value: u64,
}

impl CounterEntry {
    pub fn new() -> (r: CounterEntry)
        ensures
            r.value == 0,
    {
        CounterEntry { value: 0 }
    }

    /// Adds to the cell, wrapping on overflow as the atomic counter does.
    pub fn add(&mut self, value: u64)
        ensures
            final(self).value == vstd::wrapping::u64_specs::wrapping_add(old(self).value, value),
    {
        self.value = self.value.wrapping_add(value);
    }
}

/// The counter table and its limits.
pub struct Stats {
    pub counters: KvMap<CounterKey, u64>,
    pub max_samples: usize,
}

/// The value a counter map holds at `key`, zero when absent.
pub open spec fn spec_counter_value(m: Map<CounterKey, u64>, key: CounterKey) -> u64 {
    if m.dom().contains(key) {
        m[key]
    } else {
        0
    }
}

/// A counter map with `value` added (wrapping) at `key`.
pub open spec fn spec_counter_add(m: Map<CounterKey, u64>, key: CounterKey, value: u64) -> Map<
    CounterKey,
    u64,
> {
    m.insert(key, vstd::wrapping::u64_specs::wrapping_add(spec_counter_value(m, key), value))
}

impl Stats {
    pub fn new(max_samples: usize) -> (r: Stats)
        ensures
            r.counters.wf(),
            r.counters.view() == Map::<CounterKey, u64>::empty(),
            r.max_samples == max_samples,
    {
        Stats { counters: KvMap::new(), max_samples }
    }

    /// Adds `value` to the counter and, for a detail other than `All`, to
    /// the type's `All` counter as well. Adding zero changes nothing.
    pub fn add_dir(&mut self, stat_type: StatType, detail: DetailType, dir: Direction, value: u64)
        requires
            old(self).counters.wf(),
        ensures
            final(self).counters.wf(),
            final(self).max_samples == old(self).max_samples,
            value == 0 ==> final(self).counters.view() == old(self).counters.view(),
            value != 0 ==> ({
                let key = CounterKey { stat_type, detail, dir };
                let all_key = CounterKey { stat_type, detail: DetailType::All, dir };
                let once = spec_counter_add(old(self).counters.view(), key, value);
                if key == all_key {
                    final(self).counters.view() == once
                } else {
                    final(self).counters.view() == spec_counter_add(once, all_key, value)
                }
            }),
    {
        if value == 0 {
            return;
        }
        let key = CounterKey::new(stat_type, detail, dir);
        let all_key = CounterKey::new(key.stat_type, DetailType::All, key.dir);
        let current = match self.counters.get(&key) {
            Some(v) => v,
            None => 0,
        };
        self.counters.insert(key, current.wrapping_add(value));
        if !key.key_eq(&all_key) {
            let current_all = match self.counters.get(&all_key) {
                Some(v) => v,
                None => 0,
            };
            self.counters.insert(all_key, current_all.wrapping_add(value));
        }
    }

    pub fn add(&mut self, stat_type: StatType, detail: DetailType, value: u64)
        requires
            old(self).counters.wf(),
        ensures
            final(self).counters.wf(),
            final(self).max_samples == old(self).max_samples,
            value == 0 ==> final(self).counters.view() == old(self).counters.view(),
            value != 0 ==> ({
                let key = CounterKey { stat_type, detail, dir: Direction::In };
                let all_key = CounterKey { stat_type, detail: DetailType::All, dir: Direction::In };
                let once = spec_counter_add(old(self).counters.view(), key, value);
                if key == all_key {
                    final(self).counters.view() == once
                } else {
                    final(self).counters.view() == spec_counter_add(once, all_key, value)
                }
            }),
    {
        self.add_dir(stat_type, detail, Direction::In, value)
    }

    pub fn inc(&mut self, stat_type: StatType, detail: DetailType)
        requires
            old(self).counters.wf(),
        ensures
            final(self).counters.wf(),
            final(self).max_samples == old(self).max_samples,
            ({
                let key = CounterKey { stat_type, detail, dir: Direction::In };
                let all_key = CounterKey { stat_type, detail: DetailType::All, dir: Direction::In };
                let once = spec_counter_add(old(self).counters.view(), key, 1);
                if key == all_key {
                    final(self).counters.view() == once
                } else {
                    final(self).counters.view() == spec_counter_add(once, all_key, 1)
                }
            }),
    {
        self.add_dir(stat_type, detail, Direction::In, 1)
    }

    pub fn inc_dir(&mut self, stat_type: StatType, detail: DetailType, dir: Direction)
        requires
            old(self).counters.wf(),
        ensures
            final(self).counters.wf(),
            final(self).max_samples == old(self).max_samples,
            ({
                let key = CounterKey { stat_type, detail, dir };
                let all_key = CounterKey { stat_type, detail: DetailType::All, dir };
                let once = spec_counter_add(old(self).counters.view(), key, 1);
                if key == all_key {
                    final(self).counters.view() == once
                } else {
                    final(self).counters.view() == spec_counter_add(once, all_key, 1)
                }
            }),
    {
        self.add_dir(stat_type, detail, dir, 1)
    }

    /// The current value of a counter; zero when never touched.
    pub fn count(&self, stat_type: StatType, detail: DetailType, dir: Direction) -> (r: u64)
        requires
            self.counters.wf(),
        ensures
            r == spec_counter_value(self.counters.view(), CounterKey { stat_type, detail, dir }),
    {
        let key = CounterKey::new(stat_type, detail, dir);
        match self.counters.get(&key) {
            Some(v) => v,
            None => 0,
        }
    }

    /// Drops every counter.
    pub fn clear(&mut self)
        ensures
            final(self).counters.wf(),
            final(self).counters.view() == Map::<CounterKey, u64>::empty(),
            final(self).max_samples == old(self).max_samples,
    {
        self.counters = KvMap::new();
    }
}

#[verifier::external_type_specification]
#[verifier::external_body]
#[verifier::reject_recursive_types(T)]
pub struct ExBoundedVecDeque<T>(bounded_vec_deque::BoundedVecDeque<T>);

/// What a sampler's deque currently holds, oldest first.
pub uninterp spec fn bvd_contents(q: bounded_vec_deque::BoundedVecDeque<i64>) -> Seq<i64>;

/// The bound a sampler's deque was created with.
pub uninterp spec fn bvd_bound(q: bounded_vec_deque::BoundedVecDeque<i64>) -> nat;

/// Relies on BoundedVecDeque::new: an empty deque bounded at `max_len`.
#[verifier::external_body]
fn bvd_new(max_len: usize) -> (r: bounded_vec_deque::BoundedVecDeque<i64>)
    ensures
        bvd_contents(r) == Seq::<i64>::empty(),
        bvd_bound(r) == max_len as nat,
{
    bounded_vec_deque::BoundedVecDeque::new(max_len)
}

/// Relies on BoundedVecDeque::push_back: appends `value`; at the bound the
/// front element leaves first, and a zero-bound deque stays empty.
#[verifier::external_body]
fn bvd_push_back(q: &mut bounded_vec_deque::BoundedVecDeque<i64>, value: i64)
    ensures
        bvd_bound(*final(q)) == bvd_bound(*old(q)),
        bvd_bound(*old(q)) == 0 ==> bvd_contents(*final(q)) == bvd_contents(*old(q)),
        bvd_bound(*old(q)) > 0 && bvd_contents(*old(q)).len() < bvd_bound(*old(q)) ==> bvd_contents(
            *final(q),
        ) == bvd_contents(*old(q)).push(value),
        bvd_bound(*old(q)) > 0 && bvd_contents(*old(q)).len() >= bvd_bound(*old(q)) ==> bvd_contents(
            *final(q),
        ) == bvd_contents(*old(q)).subrange(1, bvd_contents(*old(q)).len() as int).push(value),
    {
    let _ = q.push_back(value);
}

/// Relies on BoundedVecDeque::drain: empties the deque, yielding its
/// elements oldest first.
#[verifier::external_body]
fn bvd_drain(q: &mut bounded_vec_deque::BoundedVecDeque<i64>) -> (r: Vec<i64>)
    ensures
        bvd_bound(*final(q)) == bvd_bound(*old(q)),
        r@ == bvd_contents(*old(q)),
        bvd_contents(*final(q)) == Seq::<i64>::empty(),
{
    q.drain(..).collect()
}

/// One sampler: a bounded window of observed values.
pub struct SamplerEntry {
    pub samples: bounded_vec_deque::BoundedVecDeque<i64>,
}

impl SamplerEntry {
    pub fn new(max_samples: usize) -> (r: SamplerEntry)
        ensures
            bvd_contents(r.samples) == Seq::<i64>::empty(),
            bvd_bound(r.samples) == max_samples as nat,
    {
        SamplerEntry { samples: bvd_new(max_samples) }
    }

    pub fn add(&mut self, value: i64)
        ensures
            bvd_bound(final(self).samples) == bvd_bound(old(self).samples),
            bvd_bound(old(self).samples) == 0 ==> bvd_contents(final(self).samples) == bvd_contents(
                old(self).samples,
            ),
            bvd_bound(old(self).samples) > 0 && bvd_contents(old(self).samples).len() < bvd_bound(
                old(self).samples,
            ) ==> bvd_contents(final(self).samples) == bvd_contents(old(self).samples).push(value),
            bvd_bound(old(self).samples) > 0 && bvd_contents(old(self).samples).len() >= bvd_bound(
                old(self).samples,
            ) ==> bvd_contents(final(self).samples) == bvd_contents(old(self).samples).subrange(
                1,
                bvd_contents(old(self).samples).len() as int,
            ).push(value),
    {
        bvd_push_back(&mut self.samples, value)
    }

    /// Hands the window out and leaves the sampler empty.
    pub fn collect(&mut self) -> (r: Vec<i64>)
        ensures
            r@ == bvd_contents(old(self).samples),
            bvd_contents(final(self).samples) == Seq::<i64>::empty(),
            bvd_bound(final(self).samples) == bvd_bound(old(self).samples),
    {
        bvd_drain(&mut self.samples)
    }
}

/// The samplers beside the counters, keyed by what they observe.
pub struct Samplers {
    pub entries: Vec<(SamplerKey, SamplerEntry)>,
}

impl Samplers {
    pub open spec fn wf(self) -> bool {
        forall|i: int, j: int|
            0 <= i < j < self.entries@.len() ==> (#[trigger] self.entries@[i]).0 != (
            #[trigger] self.entries@[j]).0
    }

    pub fn new() -> (r: Samplers)
        ensures
            r.wf(),
            r.entries@.len() == 0,
    {
        Samplers { entries: Vec::new() }
    }

    /// Records `value` under `key`, creating the sampler bounded at
    /// `max_samples` on its first use; the addressed window takes the value
    /// per the deque's bound, every other entry stays as it was.
    pub fn add(&mut self, key: SamplerKey, value: i64, max_samples: usize)
        requires
            old(self).wf(),
        ensures
            final(self).wf(),
            (forall|j: int|
                0 <= j < old(self).entries@.len() ==> (#[trigger] old(self).entries@[j]).0
                    != key) ==> ({
                &&& final(self).entries@.len() == old(self).entries@.len() + 1
                &&& (forall|j: int|
                    0 <= j < old(self).entries@.len() ==> #[trigger] final(self).entries@[j]
                        == old(self).entries@[j])
                &&& final(self).entries@.last().0 == key
                &&& bvd_bound(final(self).entries@.last().1.samples) == max_samples as nat
                &&& bvd_contents(final(self).entries@.last().1.samples) == if max_samples == 0 {
                    Seq::<i64>::empty()
                } else {
                    seq![value]
                }
            }),
            forall|i: int|
                0 <= i < old(self).entries@.len() && (#[trigger] old(self).entries@[i]).0 == key
                    ==> ({
                    let entry = old(self).entries@[i].1;
                    &&& final(self).entries@.len() == old(self).entries@.len()
                    &&& (forall|j: int|
                        0 <= j < old(self).entries@.len() && j != i ==> #[trigger] final(self).entries@[j] == old(self).entries@[j])
                    &&& final(self).entries@[i].0 == key
                    &&& bvd_bound(final(self).entries@[i].1.samples) == bvd_bound(entry.samples)
                    &&& (bvd_bound(entry.samples) == 0 ==> bvd_contents(
                        final(self).entries@[i].1.samples,
                    ) == bvd_contents(entry.samples))
                    &&& (bvd_bound(entry.samples) > 0 && bvd_contents(entry.samples).len()
                        < bvd_bound(entry.samples) ==> bvd_contents(
                        final(self).entries@[i].1.samples,
                    ) == bvd_contents(entry.samples).push(value))
                    &&& (bvd_bound(entry.samples) > 0 && bvd_contents(entry.samples).len()
                        >= bvd_bound(entry.samples) ==> bvd_contents(
                        final(self).entries@[i].1.samples,
                    ) == bvd_contents(entry.samples).subrange(
                        1,
                        bvd_contents(entry.samples).len() as int,
                    ).push(value))
                }),
    {
        let mut i: usize = 0;
        while i < self.entries.len()
            invariant
                *self == *old(self),
                self.wf(),
                i <= self.entries@.len(),
                forall|j: int| 0 <= j < i ==> (#[trigger] self.entries@[j]).0.sample != key.sample,
            decreases self.entries@.len() - i,
        {
            if self.entries[i].0.sample == key.sample {
                let mut entry = self.entries.remove(i);
                entry.1.add(value);
                self.entries.insert(i, entry);
                proof {
                    assert forall|a: int, b: int|
                        0 <= a < b < self.entries@.len() implies (#[trigger] self.entries@[a]).0
                        != (#[trigger] self.entries@[b]).0 by {
                        assert(old(self).entries@[a].0 == self.entries@[a].0);
                        assert(old(self).entries@[b].0 == self.entries@[b].0);
                    }
                }
                return;
            }
            i = i + 1;
        }
        let mut fresh = SamplerEntry::new(max_samples);
        fresh.add(value);
        self.entries.push((key, fresh));
        proof {
            assert forall|a: int, b: int|
                0 <= a < b < self.entries@.len() implies (#[trigger] self.entries@[a]).0 != (
            #[trigger] self.entries@[b]).0 by {
                if b < self.entries@.len() - 1 {
                    assert(old(self).entries@[a].0 == self.entries@[a].0);
                    assert(old(self).entries@[b].0 == self.entries@[b].0);
                }
            }
        }
    }

    /// Drains and returns the window under `key`, oldest value first;
    /// empty when the key was never used. Every other entry stays as it
    /// was.
    pub fn collect(&mut self, key: SamplerKey) -> (r: Vec<i64>)
        requires
            old(self).wf(),
        ensures
            final(self).wf(),
            final(self).entries@.len() == old(self).entries@.len(),
            (forall|j: int|
                0 <= j < old(self).entries@.len() ==> (#[trigger] old(self).entries@[j]).0
                    != key) ==> r@.len() == 0 && final(self).entries@ == old(self).entries@,
            forall|i: int|
                0 <= i < old(self).entries@.len() && (#[trigger] old(self).entries@[i]).0 == key
                    ==> ({
                    &&& r@ == bvd_contents(old(self).entries@[i].1.samples)
                    &&& (forall|j: int|
                        0 <= j < old(self).entries@.len() && j != i ==> #[trigger] final(self).entries@[j] == old(self).entries@[j])
                    &&& final(self).entries@[i].0 == key
                    &&& bvd_contents(final(self).entries@[i].1.samples) == Seq::<i64>::empty()
                    &&& bvd_bound(final(self).entries@[i].1.samples) == bvd_bound(
                        old(self).entries@[i].1.samples,
                    )
                }),
    {
        let mut i: usize = 0;
        while i < self.entries.len()
            invariant
                *self == *old(self),
                self.wf(),
                i <= self.entries@.len(),
                forall|j: int| 0 <= j < i ==> (#[trigger] self.entries@[j]).0.sample != key.sample,
            decreases self.entries@.len() - i,
        {
            if self.entries[i].0.sample == key.sample {
                let mut entry = self.entries.remove(i);
                let out = entry.1.collect();
                self.entries.insert(i, entry);
                proof {
                    assert forall|a: int, b: int|
                        0 <= a < b < self.entries@.len() implies (#[trigger] self.entries@[a]).0
                        != (#[trigger] self.entries@[b]).0 by {
                        assert(old(self).entries@[a].0 == self.entries@[a].0);
                        assert(old(self).entries@[b].0 == self.entries@[b].0);
                    }
                }
                return out;
            }
            i = i + 1;
        }
        Vec::new()
    }
}


} // verus!
