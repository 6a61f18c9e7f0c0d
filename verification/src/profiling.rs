//! Frame timing: a rolling window of per-tick durations that fills skipped
//! ticks with zeros, the tick counter, and the arithmetic of the timing readout.
//! Durations are whole nanoseconds.

use vstd::prelude::*;

use vstd::string::StrSliceExecFns;

use circular_buffer::CircularBuffer;

verus! {

/// Number of ticks the timing window holds.
pub const TIMING_WINDOW_SIZE: usize = 30;

#[verifier::external_type_specification]
#[verifier::external_body]
#[verifier::reject_recursive_types(T)]
pub struct ExCircularBuffer<const N: usize, T>(CircularBuffer<N, T>);

/// The durations a timing window holds, oldest first.
pub uninterp spec fn window_items(b: CircularBuffer<30, u64>) -> Seq<u64>;

/// An empty timing window.
///
/// Calls `CircularBuffer::new`, which holds no items.
#[verifier::external_body]
fn window_new() -> (r: CircularBuffer<30, u64>)
    ensures
        window_items(r) == Seq::<u64>::empty(),
{
    CircularBuffer::new()
}

/// Appends a duration; a full window drops its oldest.
///
/// Calls `CircularBuffer::push_back`, which appends at the back and, when the
/// buffer already holds its capacity (30), first removes the front item.
#[verifier::external_body]
fn window_push(b: &mut CircularBuffer<30, u64>, x: u64)
    ensures
        window_items(*final(b)) == (if window_items(*old(b)).len() < 30 {
            window_items(*old(b)).push(x)
        } else {
            window_items(*old(b)).drop_first().push(x)
        }),
{
    b.push_back(x);
}

/// The newest duration, if any.
///
/// Calls `CircularBuffer::back`, which gives the back item, `None` when empty.
#[verifier::external_body]
fn window_back(b: &CircularBuffer<30, u64>) -> (r: Option<u64>)
    ensures
        r == (if window_items(*b).len() == 0 {
            None
        } else {
            Some(window_items(*b).last())
        }),
{
    b.back().copied()
}

/// The durations, oldest first.
///
/// Calls `CircularBuffer::to_vec`, which clones the items front to back.
#[verifier::external_body]
fn window_to_vec(b: &CircularBuffer<30, u64>) -> (r: Vec<u64>)
    ensures
        r@ == window_items(*b),
{
    b.to_vec()
}

/// A window after appending `x`, dropping the oldest when full.
pub open spec fn spec_window_push(s: Seq<u64>, x: u64) -> Seq<u64> {
    if s.len() < TIMING_WINDOW_SIZE {
        s.push(x)
    } else {
        s.drop_first().push(x)
    }
}

/// A window after appending `n` zero durations.
pub open spec fn spec_push_zeros(s: Seq<u64>, n: nat) -> Seq<u64>
    decreases n,
{
    if n == 0 {
        s
    } else {
        spec_window_push(spec_push_zeros(s, (n - 1) as nat), 0)
    }
}

/// Pushing keeps a window within its size.
pub proof fn lemma_push_bounded(s: Seq<u64>, x: u64)
    requires
        s.len() <= TIMING_WINDOW_SIZE,
    ensures
        spec_window_push(s, x).len() <= TIMING_WINDOW_SIZE,
        s.len() > 0 ==> spec_window_push(s, x).len() > 0,
        spec_window_push(s, x).len() > 0,
        spec_window_push(s, x).last() == x,
{
}

/// A window brought up to `tick` from `last`: zeros for the ticks skipped
/// before it.
pub open spec fn spec_caught_up(items: Seq<u64>, last: u64, tick: u64) -> Seq<u64> {
    if tick > last {
        spec_push_zeros(items, (tick - last - 1) as nat)
    } else {
        items
    }
}

/// Durations of the last ticks, with zeros for ticks that recorded nothing.
#[derive(Debug)]
pub struct TimingBuffer {
    buffer: CircularBuffer<30, u64>,
    last_tick: u64,
}

impl TimingBuffer {
    /// The durations held, oldest first.
    pub closed spec fn spec_items(self) -> Seq<u64> {
        window_items(self.buffer)
    }

    /// The last tick recorded.
    pub closed spec fn spec_last_tick(self) -> u64 {
        self.last_tick
    }

    /// Whether the window is within its size.
    pub open spec fn wf(self) -> bool {
        self.spec_items().len() <= TIMING_WINDOW_SIZE
    }

    /// An empty window at tick 0.
    pub fn new() -> (r: Self)
        ensures
            r.spec_items() == Seq::<u64>::empty(),
            r.spec_last_tick() == 0,
            r.wf(),
    {
        TimingBuffer { buffer: window_new(), last_tick: 0 }
    }

    /// The last tick recorded.
    pub fn last_tick(&self) -> (r: u64)
        ensures
            r == self.spec_last_tick(),
    {
        self.last_tick
    }

    fn push_zeros(&mut self, n: u64)
        requires
            old(self).wf(),
        ensures
            final(self).wf(),
            final(self).spec_items() == spec_push_zeros(old(self).spec_items(), n as nat),
            final(self).spec_last_tick() == old(self).spec_last_tick(),
    {
        let mut i: u64 = 0;
        while i < n
            invariant
                0 <= i <= n,
                self.wf(),
                self.spec_items() == spec_push_zeros(old(self).spec_items(), i as nat),
                self.spec_last_tick() == old(self).spec_last_tick(),
            decreases n - i,
        {
            proof {
                lemma_push_bounded(self.spec_items(), 0);
            }
            window_push(&mut self.buffer, 0);
            i = i + 1;
        }
    }

    /// Records `duration` for `current_tick`, first filling the ticks skipped
    /// since the last record with zeros. Ticks never go backwards.
    pub fn add_timing(&mut self, duration: u64, current_tick: u64)
        requires
            old(self).wf(),
            current_tick >= old(self).spec_last_tick(),
        ensures
            final(self).wf(),
            final(self).spec_last_tick() == current_tick,
            final(self).spec_items() == spec_window_push(
                spec_push_zeros(
                    old(self).spec_items(),
                    if current_tick > old(self).spec_last_tick() {
                        (current_tick - old(self).spec_last_tick() - 1) as nat
                    } else {
                        0
                    },
                ),
                duration,
            ),
    {
        if current_tick > self.last_tick {
            let skipped = current_tick - self.last_tick - 1;
            self.push_zeros(skipped);
        }
        proof {
            lemma_push_bounded(self.spec_items(), duration);
        }
        window_push(&mut self.buffer, duration);
        self.last_tick = current_tick;
    }

    /// The newest duration, or zero when there is none.
    pub fn get_most_recent_timing(&self) -> (r: u64)
        ensures
            r == (if self.spec_items().len() == 0 {
                0
            } else {
                self.spec_items().last()
            }),
    {
        match window_back(&self.buffer) {
            Some(d) => d,
            None => 0,
        }
    }

    /// Brings the window up to `current_tick`: zeros for the ticks skipped before
    /// it (not for the tick itself), and the tick becomes the last one seen.
    /// Then returns the durations the statistics run over: the whole window.
    /// Time never goes backwards: `current_tick` is not before the last tick.
    pub fn recent_samples(&mut self, current_tick: u64) -> (r: Vec<u64>)
        requires
            old(self).wf(),
            current_tick >= old(self).spec_last_tick(),
        ensures
            final(self).wf(),
            final(self).spec_items() == spec_caught_up(old(self).spec_items(), old(self).spec_last_tick(), current_tick),
            final(self).spec_last_tick() == current_tick,
            r@ == final(self).spec_items(),
    {
        if current_tick > self.last_tick {
            let skipped = current_tick - self.last_tick - 1;
            self.push_zeros(skipped);
            self.last_tick = current_tick;
        }
        window_to_vec(&self.buffer)
    }
}

impl Default for TimingBuffer {
    fn default() -> (r: Self)
        ensures
            r.spec_items() == Seq::<u64>::empty(),
            r.spec_last_tick() == 0,
    {
        TimingBuffer::new()
    }
}

/// The durations after recording `duration` at `tick` on a window last written
/// at `last`: zeros for the skipped ticks, then the duration.
pub open spec fn spec_record(items: Seq<u64>, last: u64, duration: u64, tick: u64) -> Seq<u64> {
    spec_window_push(
        spec_push_zeros(items, if tick > last { (tick - last - 1) as nat } else { 0 }),
        duration,
    )
}

proof fn lemma_push_zeros_bounded(s: Seq<u64>, n: nat)
    requires
        s.len() <= TIMING_WINDOW_SIZE,
    ensures
        spec_push_zeros(s, n).len() <= TIMING_WINDOW_SIZE,
    decreases n,
{
    if n > 0 {
        lemma_push_zeros_bounded(s, (n - 1) as nat);
        lemma_push_bounded(spec_push_zeros(s, (n - 1) as nat), 0);
    }
}

/// Recording keeps the window within its size and makes the recorded
/// duration the most recent one.
pub proof fn lemma_record_latest(items: Seq<u64>, last: u64, duration: u64, tick: u64)
    requires
        items.len() <= TIMING_WINDOW_SIZE,
    ensures
        spec_record(items, last, duration, tick).len() <= TIMING_WINDOW_SIZE,
        spec_record(items, last, duration, tick).len() > 0,
        spec_record(items, last, duration, tick).last() == duration,
{
    let n: nat = if tick > last { (tick - last - 1) as nat } else { 0 };
    lemma_push_zeros_bounded(items, n);
    lemma_push_bounded(spec_push_zeros(items, n), duration);
}

/// Label of the whole-frame timing.
pub const TOTAL: &'static str = "total";

fn find_label(timings: &Vec<(String, TimingBuffer)>, key: &String) -> (r: Option<usize>)
    ensures
        r matches Some(i) ==> i < timings@.len() && timings@[i as int].0@ == key@,
        r is None ==> forall|j: int| 0 <= j < timings@.len() ==> (#[trigger] timings@[j]).0@ != key@,
{
    let mut i: usize = 0;
    while i < timings.len()
        invariant
            0 <= i <= timings.len(),
            forall|j: int| 0 <= j < i ==> (#[trigger] timings@[j]).0@ != key@,
        decreases timings.len() - i,
    {
        if timings[i].0 == *key {
            return Some(i);
        }
        i = i + 1;
    }
    None
}

/// Timing windows by label, each label once; a label gets its window the first
/// time it is recorded.
#[derive(Debug)]
pub struct SystemTimings {
    timings: Vec<(String, TimingBuffer)>,
}

impl SystemTimings {
    /// The labelled windows, in order of first record.
    pub closed spec fn spec_entries(self) -> Seq<(String, TimingBuffer)> {
        self.timings@
    }

    /// Every window within its size, and each label once.
    pub open spec fn wf(self) -> bool {
        &&& forall|j: int| 0 <= j < self.spec_entries().len() ==> (#[trigger] self.spec_entries()[j]).1.wf()
        &&& forall|a: int, b: int|
            0 <= a < b < self.spec_entries().len() ==> (#[trigger] self.spec_entries()[a]).0@ != (
            #[trigger] self.spec_entries()[b]).0@
    }

    /// No windows yet.
    pub fn new() -> (r: Self)
        ensures
            r.spec_entries() == Seq::<(String, TimingBuffer)>::empty(),
            r.wf(),
    {
        SystemTimings { timings: Vec::new() }
    }

    /// Records `duration` at `current_tick` under `label`, creating the label's
    /// window on first sight. A label's ticks never go backwards.
    pub fn add_timing(&mut self, label: &str, duration: u64, current_tick: u64)
        requires
            old(self).wf(),
            forall|j: int|
                0 <= j < old(self).spec_entries().len() && (#[trigger] old(self).spec_entries()[j]).0@ == label@
                    ==> current_tick >= old(self).spec_entries()[j].1.spec_last_tick(),
        ensures
            final(self).wf(),
            ({
                let es = old(self).spec_entries();
                let fs = final(self).spec_entries();
                if exists|j: int| 0 <= j < es.len() && (#[trigger] es[j]).0@ == label@ {
                    &&& fs.len() == es.len()
                    &&& forall|j: int|
                        0 <= j < es.len() ==> (#[trigger] fs[j]).0 == es[j].0 && if es[j].0@ == label@ {
                            &&& fs[j].1.spec_items() == spec_record(
                                es[j].1.spec_items(),
                                es[j].1.spec_last_tick(),
                                duration,
                                current_tick,
                            )
                            &&& fs[j].1.spec_last_tick() == current_tick
                        } else {
                            fs[j].1 == es[j].1
                        }
                } else {
                    &&& fs.len() == es.len() + 1
                    &&& forall|j: int| 0 <= j < es.len() ==> #[trigger] fs[j] == es[j]
                    &&& fs.last().0@ == label@
                    &&& fs.last().1.spec_items() == spec_record(Seq::<u64>::empty(), 0, duration, current_tick)
                    &&& fs.last().1.spec_last_tick() == current_tick
                }
            }),
    {
        let key = label.to_owned();
        let found = find_label(&self.timings, &key);
        if let Some(i) = found {
            let ghost es = self.timings@;
            let (name, mut buffer) = self.timings.remove(i);
            proof {
                assert(es[i as int].1.wf());
            }
            buffer.add_timing(duration, current_tick);
            self.timings.insert(i, (name, buffer));
            proof {
                assert forall|j: int| 0 <= j < es.len() && j != i implies es[j].0@ != label@ by {
                    if j < i {
                    } else {
                        assert(es[i as int].0@ != es[j].0@);
                    }
                }
                assert forall|j: int| 0 <= j < es.len() && j != i implies #[trigger] self.timings@[j] == es[j] by {
                    if j < i {
                        assert(self.timings@[j] == es.remove(i as int)[j]);
                    } else {
                        assert(self.timings@[j] == es.remove(i as int)[j - 1]);
                    }
                }
                assert(self.timings@.len() == es.len());
                assert forall|a: int, b: int|
                    0 <= a < b < self.timings@.len() implies (#[trigger] self.timings@[a]).0@ != (
                    #[trigger] self.timings@[b]).0@ by {
                    if a != i && b != i {
                        assert(es[a].0@ != es[b].0@);
                    } else if a == i {
                        assert(es[i as int].0@ != es[b].0@);
                    } else {
                        assert(es[a].0@ != es[i as int].0@);
                    }
                }
            }
        } else {
            let mut buffer = TimingBuffer::new();
            buffer.add_timing(duration, current_tick);
            self.timings.push((key, buffer));
        }
    }

    /// Records the whole-frame timing under `TOTAL`.
    pub fn add_total_timing(&mut self, duration: u64, current_tick: u64)
        requires
            old(self).wf(),
            forall|j: int|
                0 <= j < old(self).spec_entries().len() && (#[trigger] old(self).spec_entries()[j]).0@ == TOTAL@
                    ==> current_tick >= old(self).spec_entries()[j].1.spec_last_tick(),
        ensures
            final(self).wf(),
            ({
                let es = old(self).spec_entries();
                let fs = final(self).spec_entries();
                if exists|j: int| 0 <= j < es.len() && (#[trigger] es[j]).0@ == TOTAL@ {
                    &&& fs.len() == es.len()
                    &&& forall|j: int|
                        0 <= j < es.len() ==> (#[trigger] fs[j]).0 == es[j].0 && if es[j].0@ == TOTAL@ {
                            &&& fs[j].1.spec_items() == spec_record(
                                es[j].1.spec_items(),
                                es[j].1.spec_last_tick(),
                                duration,
                                current_tick,
                            )
                            &&& fs[j].1.spec_last_tick() == current_tick
                        } else {
                            fs[j].1 == es[j].1
                        }
                } else {
                    &&& fs.len() == es.len() + 1
                    &&& forall|j: int| 0 <= j < es.len() ==> #[trigger] fs[j] == es[j]
                    &&& fs.last().0@ == TOTAL@
                    &&& fs.last().1.spec_items() == spec_record(Seq::<u64>::empty(), 0, duration, current_tick)
                    &&& fs.last().1.spec_last_tick() == current_tick
                }
            }),
    {
        self.add_timing(TOTAL, duration, current_tick);
    }
}

/// Entry `e` brought up to `tick` as `f`, with `o` its label and samples.
pub open spec fn spec_sampled(e: (String, TimingBuffer), f: (String, TimingBuffer), o: (String, Vec<u64>), tick: u64) -> bool {
    &&& f.0 == e.0
    &&& o.0 == e.0
    &&& f.1.spec_items() == spec_caught_up(e.1.spec_items(), e.1.spec_last_tick(), tick)
    &&& f.1.spec_last_tick() == tick
    &&& o.1@ == f.1.spec_items()
}

impl SystemTimings {
    /// Whether no window has seen a tick after `tick`.
    pub open spec fn spec_caught_up_to(self, tick: u64) -> bool {
        forall|j: int| 0 <= j < self.spec_entries().len() ==> tick >= (#[trigger] self.spec_entries()[j]).1.spec_last_tick()
    }

    /// Whether statistics may be taken at `tick`: no window has seen a later tick.
    pub fn can_sample_at(&self, tick: u64) -> (r: bool)
        ensures
            r == self.spec_caught_up_to(tick),
    {
        let mut i: usize = 0;
        while i < self.timings.len()
            invariant
                0 <= i <= self.timings.len(),
                forall|j: int| 0 <= j < i ==> tick >= (#[trigger] self.spec_entries()[j]).1.spec_last_tick(),
            decreases self.timings.len() - i,
        {
            if self.timings[i].1.last_tick() > tick {
                proof {
                    assert(self.spec_entries()[i as int].1.spec_last_tick() > tick);
                }
                return false;
            }
            i = i + 1;
        }
        true
    }

    /// Brings every window up to `current_tick` and returns, by label in order,
    /// the durations its statistics run over (see `TimingBuffer::recent_samples`).
    /// Time never goes backwards: no window has seen a later tick.
    pub fn recent_samples(&mut self, current_tick: u64) -> (r: Vec<(String, Vec<u64>)>)
        requires
            old(self).wf(),
            old(self).spec_caught_up_to(current_tick),
        ensures
            final(self).wf(),
            final(self).spec_entries().len() == old(self).spec_entries().len(),
            r@.len() == old(self).spec_entries().len(),
            forall|j: int| 0 <= j < r@.len() ==> #[trigger] spec_sampled(
                old(self).spec_entries()[j],
                final(self).spec_entries()[j],
                r@[j],
                current_tick,
            ),
    {
        let ghost es = self.spec_entries();
        let mut out: Vec<(String, Vec<u64>)> = Vec::new();
        let mut i: usize = 0;
        while i < self.timings.len()
            invariant
                0 <= i <= self.spec_entries().len(),
                self.spec_entries().len() == es.len(),
                forall|j: int| 0 <= j < es.len() ==> current_tick >= (#[trigger] es[j]).1.spec_last_tick(),
                self.wf(),
                out@.len() == i,
                forall|j: int| i <= j < es.len() ==> self.spec_entries()[j] == es[j],
                forall|j: int| 0 <= j < i ==> #[trigger] spec_sampled(es[j], self.spec_entries()[j], out@[j], current_tick),
            decreases es.len() - i,
        {
            let ghost before = self.spec_entries();
            proof {
                assert(before[i as int].1.wf());
                assert(before[i as int] == es[i as int]);
                assert(current_tick >= es[i as int].1.spec_last_tick());
            }
            let (name, mut buffer) = self.timings.remove(i);
            let samples = buffer.recent_samples(current_tick);
            let label = name.clone();
            self.timings.insert(i, (name, buffer));
            out.push((label, samples));
            proof {
                assert(self.spec_entries() =~= before.update(i as int, self.spec_entries()[i as int]));
                assert(self.spec_entries()[i as int].0 == before[i as int].0);
                assert forall|j: int| 0 <= j < self.spec_entries().len() implies (#[trigger] self.spec_entries()[j]).1.wf() by {
                    if j != i {
                        assert(self.spec_entries()[j] == before[j]);
                    }
                }
                assert forall|a: int, b: int|
                    0 <= a < b < self.spec_entries().len() implies (#[trigger] self.spec_entries()[a]).0@ != (
                    #[trigger] self.spec_entries()[b]).0@ by {
                    assert(before[a].0@ != before[b].0@);
                    if a != i {
                        assert(self.spec_entries()[a] == before[a]);
                    }
                    if b != i {
                        assert(self.spec_entries()[b] == before[b]);
                    }
                }
                assert forall|j: int| 0 <= j < i + 1 implies #[trigger] spec_sampled(es[j], self.spec_entries()[j], out@[j], current_tick) by {
                    if j < i {
                        assert(self.spec_entries()[j] == before[j]);
                        assert(spec_sampled(es[j], before[j], out@[j], current_tick));
                    } else {
                        assert(es[j] == before[j]);
                    }
                }
            }
            i = i + 1;
        }
        out
    }
}

impl Default for SystemTimings {
    fn default() -> (r: Self)
        ensures
            r.spec_entries() == Seq::<(String, TimingBuffer)>::empty(),
    {
        SystemTimings::new()
    }
}

/// The game's tick counter.
#[derive(Debug)]
pub struct Timing {
    current_tick: u64,
}

impl Timing {
    /// The counter's value.
    pub closed spec fn spec_tick(self) -> u64 {
        self.current_tick
    }

    /// A counter at tick 0.
    pub fn new() -> (r: Self)
        ensures
            r.spec_tick() == 0,
    {
        Timing { current_tick: 0 }
    }

    /// The current tick.
    pub fn get_current_tick(&self) -> (r: u64)
        ensures
            r == self.spec_tick(),
    {
        self.current_tick
    }

    /// Moves to the next tick and returns it.
    pub fn increment_tick(&mut self) -> (r: u64)
        requires
            old(self).spec_tick() < u64::MAX,
        ensures
            r == old(self).spec_tick() + 1,
            final(self).spec_tick() == r,
    {
        self.current_tick = self.current_tick + 1;
        self.current_tick
    }
}

impl Default for Timing {
    fn default() -> (r: Self)
        ensures
            r.spec_tick() == 0,
    {
        Timing::new()
    }
}

/// The unit a duration is shown in.
#[derive(Debug, Clone, Copy, PartialEq, Eq, Structural)]
pub enum TimeUnit {
    Seconds,
    Millis,
    Micros,
    Nanos,
}

impl TimeUnit {
    /// The unit's suffix.
    pub fn suffix(self) -> (r: &'static str)
        ensures
            r@ == (match self {
                TimeUnit::Seconds => "s"@,
                TimeUnit::Millis => "ms"@,
                TimeUnit::Micros => "µs"@,
                TimeUnit::Nanos => "ns"@,
            }),
    {
        match self {
            TimeUnit::Seconds => "s",
            TimeUnit::Millis => "ms",
            TimeUnit::Micros => "µs",
            TimeUnit::Nanos => "ns",
        }
    }
}

/// A duration split into whole units, the next three decimal digits, and the
/// unit: seconds from one second, else milliseconds from one millisecond, else
/// microseconds from one microsecond, else nanoseconds (with no decimals).
pub open spec fn spec_value(nanos: u64) -> (u64, u32, TimeUnit) {
    if nanos >= 1_000_000_000 {
        ((nanos / 1_000_000_000) as u64, ((nanos / 1_000_000) % 1000) as u32, TimeUnit::Seconds)
    } else if nanos >= 1_000_000 {
        ((nanos / 1_000_000) as u64, ((nanos / 1000) % 1000) as u32, TimeUnit::Millis)
    } else if nanos >= 1000 {
        ((nanos / 1000) as u64, (nanos % 1000) as u32, TimeUnit::Micros)
    } else {
        (nanos, 0, TimeUnit::Nanos)
    }
}

/// Splits a duration for display; see `spec_value`.
pub fn get_value(nanos: u64) -> (r: (u64, u32, TimeUnit))
    ensures
        r == spec_value(nanos),
{
    if nanos >= 1_000_000_000 {
        (nanos / 1_000_000_000, ((nanos / 1_000_000) % 1000) as u32, TimeUnit::Seconds)
    } else if nanos >= 1_000_000 {
        (nanos / 1_000_000, ((nanos / 1000) % 1000) as u32, TimeUnit::Millis)
    } else if nanos >= 1000 {
        (nanos / 1000, (nanos % 1000) as u32, TimeUnit::Micros)
    } else {
        (nanos, 0, TimeUnit::Nanos)
    }
}

/// Number of decimal digits of `n` (one for zero).
pub open spec fn spec_digits(n: nat) -> nat
    decreases n,
{
    if n < 10 {
        1
    } else {
        1 + spec_digits(n / 10)
    }
}

/// Ten to the power `k`.
pub open spec fn spec_pow10(k: nat) -> nat
    decreases k,
{
    if k == 0 {
        1
    } else {
        10 * spec_pow10((k - 1) as nat)
    }
}

/// A number below `10^k` has at most `k` digits.
proof fn lemma_digits_below(n: nat, k: nat)
    requires
        k >= 1,
        n < spec_pow10(k),
    ensures
        spec_digits(n) <= k,
    decreases k,
{
    if n >= 10 {
        if k == 1 {
            reveal_with_fuel(spec_pow10, 2);
            assert(false);
        }
        let p = spec_pow10((k - 1) as nat);
        assert(n / 10 < p) by (nonlinear_arith)
            requires
                n < 10 * p,
        ;
        lemma_digits_below(n / 10, (k - 1) as nat);
    }
}

/// Number of decimal digits of `n` (one for zero).
pub fn digit_width(n: u64) -> (r: usize)
    ensures
        r == spec_digits(n as nat),
        1 <= r <= 20,
{
    proof {
        reveal_with_fuel(spec_pow10, 21);
        assert(spec_pow10(20) == 100_000_000_000_000_000_000nat);
        lemma_digits_below(n as nat, 20);
    }
    let mut m: u64 = n;
    let mut w: usize = 1;
    while m >= 10
        invariant
            1 <= w,
            w + spec_digits(m as nat) == 1 + spec_digits(n as nat),
            spec_digits(n as nat) <= 20,
        decreases m,
    {
        m = m / 10;
        w = w + 1;
    }
    w
}

/// One row of the timing readout: a label with the mean and standard deviation
/// of its durations.
#[derive(Debug, Clone)]
pub struct TimingRow {
    pub name: String,
    pub avg: u64,
    pub std_dev: u64,
}

/// Column widths of the timing readout, so that colons and decimal points line
/// up: the name column, and the whole and decimal parts of mean and deviation.
#[derive(Debug, Clone, Copy, PartialEq, Eq, Structural)]
pub struct TimingColumns {
    pub name: usize,
    pub avg_int: usize,
    pub avg_decimal: usize,
    pub std_int: usize,
    pub std_decimal: usize,
}

/// The larger of two widths.
pub open spec fn spec_max(a: int, b: int) -> int {
    if a >= b {
        a
    } else {
        b
    }
}

/// Column widths over rows: the widest of each column, where the decimal
/// columns are at least three wide and the others start from nothing.
pub open spec fn spec_columns(rows: Seq<TimingRow>) -> TimingColumns
    decreases rows.len(),
{
    if rows.len() == 0 {
        TimingColumns { name: 0, avg_int: 0, avg_decimal: 3, std_int: 0, std_decimal: 3 }
    } else {
        let c = spec_columns(rows.drop_last());
        let e = rows.last();
        let (ai, ad, _) = spec_value(e.avg);
        let (si, sd, _) = spec_value(e.std_dev);
        TimingColumns {
            name: spec_max(c.name as int, e.name@.len() as int) as usize,
            avg_int: spec_max(c.avg_int as int, spec_digits(ai as nat) as int) as usize,
            avg_decimal: spec_max(c.avg_decimal as int, spec_digits(ad as nat) as int) as usize,
            std_int: spec_max(c.std_int as int, spec_digits(si as nat) as int) as usize,
            std_decimal: spec_max(c.std_decimal as int, spec_digits(sd as nat) as int) as usize,
        }
    }
}

fn max_usize(a: usize, b: usize) -> (r: usize)
    ensures
        r == spec_max(a as int, b as int),
{
    if a >= b {
        a
    } else {
        b
    }
}

/// The column widths of the timing readout over `rows` (the name column counts
/// characters).
pub fn timing_columns(rows: &Vec<TimingRow>) -> (r: TimingColumns)
    ensures
        r == spec_columns(rows@),
{
    let mut c = TimingColumns { name: 0, avg_int: 0, avg_decimal: 3, std_int: 0, std_decimal: 3 };
    let mut i: usize = 0;
    while i < rows.len()
        invariant
            0 <= i <= rows.len(),
            c == spec_columns(rows@.subrange(0, i as int)),
        decreases rows.len() - i,
    {
        proof {
            assert(rows@.subrange(0, i + 1).drop_last() =~= rows@.subrange(0, i as int));
        }
        let e = &rows[i];
        let (ai, ad, _) = get_value(e.avg);
        let (si, sd, _) = get_value(e.std_dev);
        c = TimingColumns {
            name: max_usize(c.name, e.name.as_str().unicode_len()),
            avg_int: max_usize(c.avg_int, digit_width(ai)),
            avg_decimal: max_usize(c.avg_decimal, digit_width(ad as u64)),
            std_int: max_usize(c.std_int, digit_width(si)),
            std_decimal: max_usize(c.std_decimal, digit_width(sd as u64)),
        };
        i = i + 1;
    }
    proof {
        assert(rows@.subrange(0, rows.len() as int) =~= rows@);
    }
    c
}

/// Whether label `a` sorts strictly before `b` (character by character, a
/// proper prefix first), as string comparison orders them.
pub open spec fn spec_label_lt(a: Seq<char>, b: Seq<char>) -> bool
    decreases a.len(),
{
    if b.len() == 0 {
        false
    } else if a.len() == 0 {
        true
    } else if (a[0] as u32) < (b[0] as u32) {
        true
    } else if a[0] == b[0] {
        spec_label_lt(a.drop_first(), b.drop_first())
    } else {
        false
    }
}

proof fn lemma_label_lt_total(a: Seq<char>, b: Seq<char>)
    ensures
        spec_label_lt(a, b) || a == b || spec_label_lt(b, a),
        !(spec_label_lt(a, b) && spec_label_lt(b, a)),
        !spec_label_lt(a, a),
    decreases a.len(),
{
    if a.len() > 0 {
        lemma_label_lt_total(a.drop_first(), a.drop_first());
    }
    if a.len() > 0 && b.len() > 0 {
        lemma_label_lt_total(a.drop_first(), b.drop_first());
        if a[0] == b[0] && a.drop_first() == b.drop_first() {
            assert(a =~= seq![a[0]] + a.drop_first());
            assert(b =~= seq![b[0]] + b.drop_first());
        }
        if a[0] != b[0] {
            vstd::utf8::char_u32_cast(a[0], a[0] as u32);
            vstd::utf8::char_u32_cast(b[0], b[0] as u32);
            assert((a[0] as u32) != (b[0] as u32));
        }
    } else if a.len() == 0 && b.len() == 0 {
        assert(a =~= b);
    }
}

proof fn lemma_label_lt_transitive(a: Seq<char>, b: Seq<char>, c: Seq<char>)
    requires
        spec_label_lt(a, b),
        spec_label_lt(b, c),
    ensures
        spec_label_lt(a, c),
    decreases a.len(),
{
    if a.len() > 0 && b.len() > 0 && c.len() > 0 {
        if a[0] == b[0] && b[0] == c[0] {
            lemma_label_lt_transitive(a.drop_first(), b.drop_first(), c.drop_first());
        }
    }
}

/// Whether `x` ranks no later than `y`: slower first, then by label.
pub open spec fn spec_ranks_before(x: (String, u64), y: (String, u64)) -> bool {
    x.1 > y.1 || (x.1 == y.1 && !spec_label_lt(y.0@, x.0@))
}

/// Whether timings are ranked: slowest first, ties by label.
pub open spec fn spec_ranked(s: Seq<(String, u64)>) -> bool {
    forall|i: int, j: int| 0 <= i < j < s.len() ==> spec_ranks_before(s[i], s[j])
}

proof fn lemma_ranks_transitive(a: (String, u64), b: (String, u64), c: (String, u64))
    requires
        spec_ranks_before(a, b),
        spec_ranks_before(b, c),
    ensures
        spec_ranks_before(a, c),
{
    if a.1 == b.1 && b.1 == c.1 {
        lemma_label_lt_total(a.0@, b.0@);
        lemma_label_lt_total(b.0@, c.0@);
        if spec_label_lt(c.0@, a.0@) {
            if spec_label_lt(a.0@, b.0@) {
                lemma_label_lt_transitive(c.0@, a.0@, b.0@);
            }
            if spec_label_lt(b.0@, c.0@) {
                lemma_label_lt_transitive(b.0@, c.0@, a.0@);
            }
            if a.0@ == b.0@ && b.0@ == c.0@ {
                lemma_label_lt_total(a.0@, a.0@);
            }
        }
    }
}

proof fn lemma_ranks_total(a: (String, u64), b: (String, u64))
    ensures
        spec_ranks_before(a, b) || spec_ranks_before(b, a),
{
    lemma_label_lt_total(a.0@, b.0@);
}

/// Timings ranked by insertion: `x` goes after the ranked ones that rank no
/// later than it.
pub open spec fn spec_insert_ranked(s: Seq<(String, u64)>, x: (String, u64)) -> Seq<(String, u64)>
    decreases s.len(),
{
    if s.len() == 0 {
        seq![x]
    } else if spec_ranks_before(s.last(), x) {
        s.push(x)
    } else {
        spec_insert_ranked(s.drop_last(), x).push(s.last())
    }
}

proof fn lemma_insert_ranked(s: Seq<(String, u64)>, x: (String, u64))
    requires
        spec_ranked(s),
    ensures
        spec_ranked(spec_insert_ranked(s, x)),
        spec_insert_ranked(s, x).to_multiset() == s.to_multiset().insert(x),
        forall|i: int| 0 <= i < spec_insert_ranked(s, x).len() ==> (#[trigger] spec_insert_ranked(s, x)[i]) == x || (
            exists|j: int| 0 <= j < s.len() && s[j] == spec_insert_ranked(s, x)[i]),
    decreases s.len(),
{
    broadcast use vstd::seq_lib::group_to_multiset_ensures;
    if s.len() == 0 {
        assert(seq![x] =~= Seq::<(String, u64)>::empty().push(x));
    } else if spec_ranks_before(s.last(), x) {
        let r = s.push(x);
        assert forall|i: int, j: int| 0 <= i < j < r.len() implies spec_ranks_before(r[i], r[j]) by {
            if j == r.len() - 1 && i < s.len() - 1 {
                lemma_ranks_transitive(s[i], s.last(), x);
            }
        }
        assert forall|i: int| 0 <= i < r.len() implies (#[trigger] r[i]) == x || (exists|j: int|
            0 <= j < s.len() && s[j] == r[i]) by {
            if i < s.len() {
                assert(s[i] == r[i]);
            }
        }
    } else {
        let init = s.drop_last();
        assert(spec_ranked(init));
        lemma_insert_ranked(init, x);
        let t = spec_insert_ranked(init, x);
        let r = t.push(s.last());
        assert(s =~= init.push(s.last()));
        lemma_ranks_total(s.last(), x);
        assert forall|i: int, j: int| 0 <= i < j < r.len() implies spec_ranks_before(r[i], r[j]) by {
            assert(r[i] == t[i]);
            if j == r.len() - 1 {
                if t[i] != x {
                    let k = choose|k: int| 0 <= k < init.len() && init[k] == t[i];
                    assert(s[k] == init[k]);
                }
            }
        }
        assert forall|i: int| 0 <= i < r.len() implies (#[trigger] r[i]) == x || (exists|j: int|
            0 <= j < s.len() && s[j] == r[i]) by {
            if i == r.len() - 1 {
                assert(s[s.len() - 1] == r[i]);
            } else if t[i] != x {
                let k = choose|k: int| 0 <= k < init.len() && init[k] == t[i];
                assert(s[k] == r[i]);
            }
        }
        assert(r.to_multiset() =~= s.to_multiset().insert(x));
    }
}

fn label_lt(a: &String, b: &String) -> (r: bool)
    ensures
        r == spec_label_lt(a@, b@),
{
    let sa = a.as_str();
    let sb = b.as_str();
    let la = sa.unicode_len();
    let lb = sb.unicode_len();
    let mut i: usize = 0;
    proof {
        assert(a@.skip(0) =~= a@);
        assert(b@.skip(0) =~= b@);
    }
    while i < la && i < lb
        invariant
            la == a@.len(),
            lb == b@.len(),
            sa@ == a@,
            sb@ == b@,
            0 <= i <= la,
            i <= lb,
            a@.subrange(0, i as int) == b@.subrange(0, i as int),
            spec_label_lt(a@, b@) == spec_label_lt(a@.skip(i as int), b@.skip(i as int)),
        decreases la - i,
    {
        let ca = sa.get_char(i);
        let cb = sb.get_char(i);
        proof {
            assert(a@.skip(i as int)[0] == ca);
            assert(b@.skip(i as int)[0] == cb);
            assert(a@.skip(i as int).drop_first() =~= a@.skip(i + 1));
            assert(b@.skip(i as int).drop_first() =~= b@.skip(i + 1));
        }
        if (ca as u32) < (cb as u32) {
            return true;
        }
        if ca != cb {
            return false;
        }
        proof {
            assert(a@.subrange(0, i + 1) =~= a@.subrange(0, i as int).push(ca));
            assert(b@.subrange(0, i + 1) =~= b@.subrange(0, i as int).push(cb));
        }
        i = i + 1;
    }
    proof {
        if i == lb {
            assert(b@.skip(i as int).len() == 0);
        } else {
            assert(a@.skip(i as int).len() == 0);
        }
    }
    i < lb
}

fn insert_ranked(v: &mut Vec<(String, u64)>, x: (String, u64))
    ensures
        final(v)@ == spec_insert_ranked(old(v)@, x),
    decreases old(v)@.len(),
{
    if v.len() == 0 {
        v.push(x);
        proof {
            assert(v@ =~= seq![x]);
        }
        return;
    }
    let n = v.len();
    let before = v[n - 1].1 > x.1 || (v[n - 1].1 == x.1 && !label_lt(&x.0, &v[n - 1].0));
    if before {
        v.push(x);
        return;
    }
    let ghost s = v@;
    let last = v.pop().unwrap();
    proof {
        assert(v@ == s.drop_last());
    }
    insert_ranked(v, x);
    v.push(last);
}

/// Ranks timings: slowest first, equal durations by label.
pub fn rank_timings(timings: Vec<(String, u64)>) -> (r: Vec<(String, u64)>)
    ensures
        spec_ranked(r@),
        r@.to_multiset() == timings@.to_multiset(),
{
    let ghost all = timings@;
    let mut out: Vec<(String, u64)> = Vec::new();
    let mut rest = timings;
    let ghost mut taken: Seq<(String, u64)> = seq![];
    while rest.len() > 0
        invariant
            spec_ranked(out@),
            all == taken + rest@,
            out@.to_multiset() == taken.to_multiset(),
        decreases rest.len(),
    {
        broadcast use vstd::seq_lib::group_to_multiset_ensures;
        let ghost r0 = rest@;
        let x = rest.remove(0);
        proof {
            lemma_insert_ranked(out@, x);
            assert(r0 =~= seq![x] + rest@);
            assert(all =~= taken.push(x) + rest@);
        }
        insert_ranked(&mut out, x);
        proof {
            taken = taken.push(x);
        }
    }
    proof {
        assert(taken =~= all);
    }
    out
}

/// A system's latest duration is worth reporting on its own from 2 ms.
pub const SLOW_SYSTEM_NANOS: u64 = 2_000_000;

/// The ranked timings of at least 2 ms, in order.
pub open spec fn spec_over_threshold(s: Seq<(String, u64)>) -> Seq<(String, u64)>
    decreases s.len(),
{
    if s.len() == 0 {
        seq![]
    } else {
        let rest = spec_over_threshold(s.drop_last());
        if s.last().1 >= SLOW_SYSTEM_NANOS { rest.push(s.last()) } else { rest }
    }
}

/// The suspects of a slow frame: the latest timing of every system but the
/// total, ranked; the ranked ones over 2 ms; and the sum of all latest timings.
/// Where some are over 2 ms they are the answer; otherwise the caller takes the
/// ranked ones, at most five, until they make up 30% of the sum.
pub struct SlowFrameSuspects {
    pub ranked: Vec<(String, u64)>,
    pub over_threshold: Vec<(String, u64)>,
    pub total: u128,
}

/// Whether `e` is a system row (not the total).
pub open spec fn spec_is_system(e: (String, TimingBuffer)) -> bool {
    e.0@ != TOTAL@
}

/// The latest timing of each system, in order.
pub open spec fn spec_latest(es: Seq<(String, TimingBuffer)>) -> Seq<(String, u64)>
    decreases es.len(),
{
    if es.len() == 0 {
        seq![]
    } else {
        let rest = spec_latest(es.drop_last());
        let e = es.last();
        if spec_is_system(e) {
            rest.push(
                (
                    e.0,
                    if e.1.spec_items().len() == 0 { 0u64 } else { e.1.spec_items().last() },
                ),
            )
        } else {
            rest
        }
    }
}

/// The sum of the durations.
pub open spec fn spec_sum(s: Seq<(String, u64)>) -> int
    decreases s.len(),
{
    if s.len() == 0 { 0 } else { spec_sum(s.drop_last()) + s.last().1 }
}

impl SystemTimings {
    /// The systems behind a slow frame; see `SlowFrameSuspects`.
    pub fn get_slowest_systems(&self) -> (r: SlowFrameSuspects)
        requires
            self.spec_entries().len() <= 0x1_0000_0000,
        ensures
            spec_ranked(r.ranked@),
            r.ranked@.to_multiset() == spec_latest(self.spec_entries()).to_multiset(),
            r.over_threshold@ == spec_over_threshold(r.ranked@),
            r.total == spec_sum(spec_latest(self.spec_entries())),
    {
        let mut latest: Vec<(String, u64)> = Vec::new();
        let mut total: u128 = 0;
        let total_label = TOTAL.to_owned();
        let mut i: usize = 0;
        while i < self.timings.len()
            invariant
                0 <= i <= self.timings.len(),
                self.timings.len() <= 0x1_0000_0000,
                total_label@ == TOTAL@,
                latest@ == spec_latest(self.spec_entries().subrange(0, i as int)),
                total == spec_sum(latest@),
                latest@.len() <= i,
                total <= i * 0xffff_ffff_ffff_ffff,
            decreases self.timings.len() - i,
        {
            proof {
                assert(self.spec_entries().subrange(0, i + 1).drop_last() =~= self.spec_entries().subrange(0, i as int));
                assert(self.spec_entries().subrange(0, i + 1).last() == self.spec_entries()[i as int]);
            }
            if !(self.timings[i].0 == total_label) {
                let d = self.timings[i].1.get_most_recent_timing();
                let ghost before = latest@;
                latest.push((self.timings[i].0.clone(), d));
                proof {
                    assert(latest@.drop_last() =~= before);
                }
                total = total + d as u128;
            }
            i = i + 1;
        }
        proof {
            assert(self.spec_entries().subrange(0, self.timings.len() as int) =~= self.spec_entries());
        }
        let ranked = rank_timings(latest);
        let mut over: Vec<(String, u64)> = Vec::new();
        let mut k: usize = 0;
        while k < ranked.len()
            invariant
                0 <= k <= ranked.len(),
                over@ == spec_over_threshold(ranked@.subrange(0, k as int)),
            decreases ranked.len() - k,
        {
            proof {
                assert(ranked@.subrange(0, k + 1).drop_last() =~= ranked@.subrange(0, k as int));
                assert(ranked@.subrange(0, k + 1).last() == ranked@[k as int]);
            }
            if ranked[k].1 >= SLOW_SYSTEM_NANOS {
                over.push((ranked[k].0.clone(), ranked[k].1));
            }
            k = k + 1;
        }
        proof {
            assert(ranked@.subrange(0, ranked.len() as int) =~= ranked@);
        }
        SlowFrameSuspects { ranked, over_threshold: over, total }
    }
}

/// The decimal digit `d` (0 to 9) as a character.
pub open spec fn spec_digit_char(d: int) -> char {
    if d == 0 { '0' } else if d == 1 { '1' } else if d == 2 { '2' } else if d == 3 { '3' } else if d == 4 {
        '4'
    } else if d == 5 { '5' } else if d == 6 { '6' } else if d == 7 { '7' } else if d == 8 { '8' } else { '9' }
}

/// `n` written in decimal.
pub open spec fn spec_decimal(n: nat) -> Seq<char>
    decreases n,
{
    if n < 10 {
        seq![spec_digit_char(n as int)]
    } else {
        spec_decimal(n / 10).push(spec_digit_char((n % 10) as int))
    }
}

/// `n` spaces (none when `n` is not positive).
pub open spec fn spec_spaces(n: int) -> Seq<char> {
    Seq::new(if n > 0 { n as nat } else { 0 }, |i: int| ' ')
}

/// `s` left-aligned in a column `w` wide.
pub open spec fn spec_pad_right(s: Seq<char>, w: int) -> Seq<char> {
    s + spec_spaces(w - s.len())
}

/// `s` right-aligned in a column `w` wide.
pub open spec fn spec_pad_left(s: Seq<char>, w: int) -> Seq<char> {
    spec_spaces(w - s.len()) + s
}

/// The characters of a unit's suffix.
pub open spec fn spec_suffix(u: TimeUnit) -> Seq<char> {
    match u {
        TimeUnit::Seconds => seq!['s'],
        TimeUnit::Millis => seq!['m', 's'],
        TimeUnit::Micros => seq!['µ', 's'],
        TimeUnit::Nanos => seq!['n', 's'],
    }
}

/// One line of the timing readout: the name left-aligned, ` : `, the mean's
/// whole part right-aligned, a point, its decimals left-aligned and its unit,
/// ` ± `, then the deviation the same way; each in its column's width.
pub open spec fn spec_timing_row(row: TimingRow, cols: TimingColumns) -> Seq<char> {
    let (ai, ad, au) = spec_value(row.avg);
    let (si, sd, su) = spec_value(row.std_dev);
    spec_pad_right(row.name@, cols.name as int) + seq![' ', ':', ' '] + spec_pad_left(spec_decimal(ai as nat), cols.avg_int as int)
        + seq!['.'] + spec_pad_right(spec_decimal(ad as nat), cols.avg_decimal as int) + spec_suffix(au) + seq![
        ' ',
        '±',
        ' ',
    ] + spec_pad_left(spec_decimal(si as nat), cols.std_int as int) + seq!['.'] + spec_pad_right(
        spec_decimal(sd as nat),
        cols.std_decimal as int,
    ) + spec_suffix(su)
}

fn digit_char(d: u64) -> (c: char)
    requires
        d < 10,
    ensures
        c == spec_digit_char(d as int),
{
    if d == 0 { '0' } else if d == 1 { '1' } else if d == 2 { '2' } else if d == 3 { '3' } else if d == 4 {
        '4'
    } else if d == 5 { '5' } else if d == 6 { '6' } else if d == 7 { '7' } else if d == 8 { '8' } else { '9' }
}

fn push_decimal(out: &mut Vec<char>, n: u64)
    ensures
        final(out)@ == old(out)@ + spec_decimal(n as nat),
    decreases n,
{
    if n >= 10 {
        push_decimal(out, n / 10);
    }
    out.push(digit_char(n % 10));
    proof {
        if n < 10 {
            assert(final(out)@ =~= old(out)@ + spec_decimal(n as nat));
        } else {
            assert(final(out)@ =~= old(out)@ + spec_decimal(n as nat));
        }
    }
}

fn push_spaces(out: &mut Vec<char>, n: usize)
    ensures
        final(out)@ == old(out)@ + spec_spaces(n as int),
{
    let mut i: usize = 0;
    while i < n
        invariant
            0 <= i <= n,
            out@ == old(out)@ + spec_spaces(i as int),
        decreases n - i,
    {
        out.push(' ');
        proof {
            assert(out@ =~= old(out)@ + spec_spaces(i + 1));
        }
        i = i + 1;
    }
}

fn push_all(out: &mut Vec<char>, s: &Vec<char>)
    ensures
        final(out)@ == old(out)@ + s@,
{
    let mut i: usize = 0;
    while i < s.len()
        invariant
            0 <= i <= s.len(),
            out@ == old(out)@ + s@.subrange(0, i as int),
        decreases s.len() - i,
    {
        out.push(s[i]);
        proof {
            assert(out@ =~= old(out)@ + s@.subrange(0, i + 1));
        }
        i = i + 1;
    }
    proof {
        assert(s@.subrange(0, s.len() as int) =~= s@);
    }
}

/// Appends `s` padded to `w` columns, left- or right-aligned.
fn push_padded(out: &mut Vec<char>, s: &Vec<char>, w: usize, left_aligned: bool)
    ensures
        final(out)@ == old(out)@ + (if left_aligned {
            spec_pad_right(s@, w as int)
        } else {
            spec_pad_left(s@, w as int)
        }),
{
    let pad: usize = if w > s.len() { w - s.len() } else { 0 };
    proof {
        assert(spec_spaces(pad as int) =~= spec_spaces(w - s@.len()));
    }
    if left_aligned {
        push_all(out, s);
        push_spaces(out, pad);
        proof {
            assert(final(out)@ =~= old(out)@ + spec_pad_right(s@, w as int));
        }
    } else {
        push_spaces(out, pad);
        push_all(out, s);
        proof {
            assert(final(out)@ =~= old(out)@ + spec_pad_left(s@, w as int));
        }
    }
}

fn decimal(n: u64) -> (r: Vec<char>)
    ensures
        r@ == spec_decimal(n as nat),
{
    let mut v: Vec<char> = Vec::new();
    push_decimal(&mut v, n);
    proof {
        assert(v@ =~= spec_decimal(n as nat));
    }
    v
}

fn push_suffix(out: &mut Vec<char>, u: TimeUnit)
    ensures
        final(out)@ == old(out)@ + spec_suffix(u),
{
    match u {
        TimeUnit::Seconds => {
            out.push('s');
        },
        TimeUnit::Millis => {
            out.push('m');
            out.push('s');
        },
        TimeUnit::Micros => {
            out.push('µ');
            out.push('s');
        },
        TimeUnit::Nanos => {
            out.push('n');
            out.push('s');
        },
    }
    proof {
        assert(final(out)@ =~= old(out)@ + spec_suffix(u));
    }
}

fn chars_of(s: &String) -> (r: Vec<char>)
    ensures
        r@ == s@,
{
    let st = s.as_str();
    let n = st.unicode_len();
    let mut v: Vec<char> = Vec::new();
    let mut i: usize = 0;
    while i < n
        invariant
            0 <= i <= n,
            n == s@.len(),
            st@ == s@,
            v@ == s@.subrange(0, i as int),
        decreases n - i,
    {
        v.push(st.get_char(i));
        proof {
            assert(v@ =~= s@.subrange(0, i + 1));
        }
        i = i + 1;
    }
    proof {
        assert(s@.subrange(0, n as int) =~= s@);
    }
    v
}

/// One line of the timing readout, as characters; see `spec_timing_row`.
pub fn format_timing_row(row: &TimingRow, cols: &TimingColumns) -> (r: Vec<char>)
    ensures
        r@ == spec_timing_row(*row, *cols),
{
    let (ai, ad, au) = get_value(row.avg);
    let (si, sd, su) = get_value(row.std_dev);
    let mut out: Vec<char> = Vec::new();
    let name = chars_of(&row.name);
    push_padded(&mut out, &name, cols.name, true);
    out.push(' ');
    out.push(':');
    out.push(' ');
    push_padded(&mut out, &decimal(ai), cols.avg_int, false);
    out.push('.');
    push_padded(&mut out, &decimal(ad as u64), cols.avg_decimal, true);
    push_suffix(&mut out, au);
    out.push(' ');
    out.push('±');
    out.push(' ');
    push_padded(&mut out, &decimal(si), cols.std_int, false);
    out.push('.');
    push_padded(&mut out, &decimal(sd as u64), cols.std_decimal, true);
    push_suffix(&mut out, su);
    proof {
        assert(out@ =~= spec_timing_row(*row, *cols));
    }
    out
}

/// The timing readout: one line per row, its columns as wide as the widest
/// entry (see `spec_columns`); no lines for no rows.
pub fn format_timing_display(rows: &Vec<TimingRow>) -> (r: Vec<Vec<char>>)
    ensures
        r@.len() == rows@.len(),
        forall|i: int| 0 <= i < r@.len() ==> (#[trigger] r@[i])@ == spec_timing_row(rows@[i], spec_columns(rows@)),
{
    let cols = timing_columns(rows);
    let mut out: Vec<Vec<char>> = Vec::new();
    let mut i: usize = 0;
    while i < rows.len()
        invariant
            0 <= i <= rows.len(),
            cols == spec_columns(rows@),
            out@.len() == i,
            forall|j: int| 0 <= j < i ==> (#[trigger] out@[j])@ == spec_timing_row(rows@[j], cols),
        decreases rows.len() - i,
    {
        out.push(format_timing_row(&rows[i], &cols));
        i = i + 1;
    }
    out
}

} // verus!
