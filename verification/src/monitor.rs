//! Watches the count of solid k-mers level off.
//!
//! The monitor is handed the running count at a fixed stride of records. It keeps the last
//! few growth deltas (first differences of the count) and the last few accelerations
//! (second differences), and advises to stop once enough records have been read and the
//! mean acceleration is small.

use vstd::prelude::*;

verus! {

/// How many growth deltas, and how many accelerations, the monitor keeps.
pub const WINDOW_CAPACITY: usize = 10;

/// The monitor never advises to stop at a record index that does not exceed this.
pub const MIN_RECORDS: u64 = 50000;

/// The monitor advises to stop only while the mean acceleration is smaller than this in
/// magnitude.
pub const ACCEL_THRESHOLD: i128 = 20;

/// The growth deltas of a series of samples: the first sample, as growth from zero, and
/// then the difference of each sample from the one before it.
pub open spec fn growths(samples: Seq<u64>) -> Seq<int> {
    Seq::new(
        samples.len(),
        |i: int|
            if i == 0 {
                samples[0] as int
            } else {
                samples[i] - samples[i - 1]
            },
    )
}

/// The accelerations of a series of samples: the difference of each growth delta from the
/// one before it. There is one less of them than of growth deltas.
pub open spec fn accelerations(samples: Seq<u64>) -> Seq<int> {
    Seq::new(
        if samples.len() == 0 {
            0nat
        } else {
            (samples.len() - 1) as nat
        },
        |i: int| growths(samples)[i + 1] - growths(samples)[i],
    )
}

/// The last `cap` values of `s`, oldest first; all of `s` where it holds no more than that.
pub open spec fn latest(s: Seq<int>, cap: nat) -> Seq<int> {
    if s.len() <= cap {
        s
    } else {
        s.subrange(s.len() - cap, s.len() as int)
    }
}

/// The sum of the values of `s`.
pub open spec fn total(s: Seq<int>) -> int
    decreases s.len(),
{
    if s.len() == 0 {
        0
    } else {
        total(s.drop_last()) + s.last()
    }
}

/// The values of a window as mathematical integers.
pub open spec fn as_ints(window: Seq<i128>) -> Seq<int> {
    window.map_values(|x: i128| x as int)
}

/// The stop rule. The scan should stop at a sample taken at record index `reads` if
/// `reads` exceeds [`MIN_RECORDS`] and the mean of the acceleration window is smaller than
/// [`ACCEL_THRESHOLD`] in magnitude. The window is given by the sum and the number of its
/// values; the mean of an empty window counts as zero.
pub open spec fn should_stop(reads: int, accel_sum: int, accel_len: int) -> bool {
    reads > MIN_RECORDS && (accel_len == 0 || (-ACCEL_THRESHOLD * accel_len < accel_sum
        && accel_sum < ACCEL_THRESHOLD * accel_len))
}

/// What the monitor reports at one sample. The two means that go into a status line are
/// given exactly, each by the sum and the number of the values in its window.
#[derive(Clone, Copy, Debug, PartialEq, Eq, Structural)]
pub struct StatusEvent {
    /// The index of the record at which the sample was taken.
    pub reads: u64,
    /// The count of solid k-mers at the sample.
    pub kmers: u64,
    /// The sum of the growth window.
    pub growth_sum: i128,
    /// The number of values in the growth window, at least one.
    pub growth_len: usize,
    /// The sum of the acceleration window.
    pub accel_sum: i128,
    /// The number of values in the acceleration window, zero at the first sample.
    pub accel_len: usize,
    /// Whether the scan should stop here.
    pub stop: bool,
}

/// The report at the last of `samples`, taken at record index `reads`.
pub open spec fn status(samples: Seq<u64>, reads: u64) -> StatusEvent
    recommends
        samples.len() > 0,
{
    let growth = latest(growths(samples), WINDOW_CAPACITY as nat);
    let accel = latest(accelerations(samples), WINDOW_CAPACITY as nat);
    StatusEvent {
        reads,
        kmers: samples.last(),
        growth_sum: total(growth) as i128,
        growth_len: growth.len() as usize,
        accel_sum: total(accel) as i128,
        accel_len: accel.len() as usize,
        stop: should_stop(reads as int, total(accel), accel.len() as int),
    }
}

/// A growth delta differs from zero by less than 2^64, an acceleration by less than 2^65.
pub open spec fn delta_in_range(x: int) -> bool {
    -0x2_0000_0000_0000_0000 < x < 0x2_0000_0000_0000_0000
}

/// Every growth delta and every acceleration of a series of samples is in range.
pub proof fn deltas_in_range(samples: Seq<u64>)
    ensures
        forall|i: int| 0 <= i < growths(samples).len() ==> delta_in_range(#[trigger] growths(samples)[i]),
        forall|i: int|
            0 <= i < accelerations(samples).len() ==> delta_in_range(
                #[trigger] accelerations(samples)[i],
            ),
{
}

/// A window that holds the latest of a series of values in range holds values in range.
proof fn window_in_range(window: Seq<i128>, s: Seq<int>, cap: nat)
    requires
        as_ints(window) == latest(s, cap),
        forall|i: int| 0 <= i < s.len() ==> delta_in_range(#[trigger] s[i]),
    ensures
        forall|i: int| 0 <= i < window.len() ==> delta_in_range(#[trigger] window[i] as int),
{
    assert forall|i: int| 0 <= i < window.len() implies delta_in_range(
        #[trigger] window[i] as int,
    ) by {
        assert(as_ints(window).len() == window.len());
        assert(as_ints(window)[i] == window[i] as int);
        if s.len() > cap {
            assert(latest(s, cap)[i] == s[s.len() - cap + i]);
        }
    }
}

/// The sum of at most `n` values in range is `n` times in range.
proof fn total_in_range(s: Seq<int>)
    requires
        forall|i: int| 0 <= i < s.len() ==> delta_in_range(#[trigger] s[i]),
    ensures
        -0x2_0000_0000_0000_0000 * s.len() <= total(s) <= 0x2_0000_0000_0000_0000 * s.len(),
    decreases s.len(),
{
    if s.len() > 0 {
        total_in_range(s.drop_last());
    }
}

/// One more sample adds one growth delta at the end and leaves the others as they were.
pub proof fn growths_push(samples: Seq<u64>, sample: u64)
    ensures
        growths(samples.push(sample)) == growths(samples).push(
            if samples.len() == 0 {
                sample as int
            } else {
                sample - samples.last()
            },
        ),
{
    assert(growths(samples.push(sample)) =~= growths(samples).push(
        if samples.len() == 0 {
            sample as int
        } else {
            sample - samples.last()
        },
    ));
}

/// One more sample, after the first, adds one acceleration at the end and leaves the
/// others as they were. The first sample adds none.
pub proof fn accelerations_push(samples: Seq<u64>, sample: u64)
    ensures
        samples.len() == 0 ==> accelerations(samples.push(sample)) == Seq::<int>::empty(),
        samples.len() > 0 ==> accelerations(samples.push(sample)) == accelerations(samples).push(
            growths(samples.push(sample)).last() - growths(samples).last(),
        ),
{
    growths_push(samples, sample);
    if samples.len() == 0 {
        assert(accelerations(samples.push(sample)) =~= Seq::<int>::empty());
    } else {
        assert(accelerations(samples.push(sample)) =~= accelerations(samples).push(
            growths(samples.push(sample)).last() - growths(samples).last(),
        ));
    }
}

/// A sliding window moves by taking the new value at the end and, where it was full,
/// letting its oldest value go.
pub proof fn latest_push(s: Seq<int>, x: int, cap: nat)
    requires
        cap > 0,
    ensures
        latest(s, cap).len() <= cap,
        latest(s, cap).len() < cap ==> latest(s.push(x), cap) == latest(s, cap).push(x),
        latest(s, cap).len() == cap ==> latest(s.push(x), cap) == latest(s, cap).push(x).remove(0),
{
    if latest(s, cap).len() < cap {
        assert(latest(s.push(x), cap) =~= latest(s, cap).push(x));
    } else {
        assert(latest(s.push(x), cap) =~= latest(s, cap).push(x).remove(0));
    }
}

/// The sum of a window.
fn sum_window(window: &Vec<i128>) -> (sum: i128)
    requires
        window@.len() <= WINDOW_CAPACITY,
        forall|i: int| 0 <= i < window@.len() ==> delta_in_range(#[trigger] window@[i] as int),
    ensures
        sum == total(as_ints(window@)),
{
    let ghost values = as_ints(window@);
    let mut sum: i128 = 0;
    let mut i: usize = 0;
    while i < window.len()
        invariant
            i <= window@.len() <= WINDOW_CAPACITY,
            values == as_ints(window@),
            forall|j: int| 0 <= j < window@.len() ==> delta_in_range(#[trigger] window@[j] as int),
            sum == total(values.take(i as int)),
            -0x2_0000_0000_0000_0000 * i <= sum <= 0x2_0000_0000_0000_0000 * i,
        decreases window@.len() - i,
    {
        proof {
            assert(values.take(i + 1).drop_last() =~= values.take(i as int));
            assert(values.take(i + 1).last() == window@[i as int] as int);
        }
        sum = sum + window[i];
        i += 1;
    }
    assert(values.take(i as int) =~= values);
    sum
}

/// The convergence monitor.
///
/// Its model is the series of all samples it was given: [`ConvergenceMonitor::samples`].
/// Of these it keeps the last one and the two sliding windows.
pub struct ConvergenceMonitor {
    prev: u64,
    growth: Vec<i128>,
    accel: Vec<i128>,
    samples: Ghost<Seq<u64>>,
}

impl ConvergenceMonitor {
    /// Every sample given so far, oldest first.
    pub closed spec fn samples(&self) -> Seq<u64> {
        self.samples@
    }

    /// The growth window, oldest value first.
    pub closed spec fn growth_window(&self) -> Seq<int> {
        as_ints(self.growth@)
    }

    /// The acceleration window, oldest value first.
    pub closed spec fn accel_window(&self) -> Seq<int> {
        as_ints(self.accel@)
    }

    /// The windows hold the latest growth deltas and accelerations of the samples, and the
    /// last sample is remembered, zero standing for it before the first.
    pub closed spec fn wf(&self) -> bool {
        &&& self.growth_window() == latest(growths(self.samples@), WINDOW_CAPACITY as nat)
        &&& self.accel_window() == latest(accelerations(self.samples@), WINDOW_CAPACITY as nat)
        &&& self.prev == if self.samples@.len() == 0 {
            0u64
        } else {
            self.samples@.last()
        }
    }

    /// The windows never hold more than [`WINDOW_CAPACITY`] values, and what they hold
    /// are the most recent growth deltas and accelerations, oldest first: older ones have
    /// left in the order in which they came.
    pub proof fn windows_hold_latest(&self)
        requires
            self.wf(),
        ensures
            self.growth_window().len() <= WINDOW_CAPACITY,
            self.accel_window().len() <= WINDOW_CAPACITY,
            self.growth_window() == latest(growths(self.samples()), WINDOW_CAPACITY as nat),
            self.accel_window() == latest(accelerations(self.samples()), WINDOW_CAPACITY as nat),
    {
    }

    /// A monitor that has been given no sample.
    pub fn new() -> (m: Self)
        ensures
            m.wf(),
            m.samples() == Seq::<u64>::empty(),
    {
        let m = ConvergenceMonitor {
            prev: 0,
            growth: Vec::new(),
            accel: Vec::new(),
            samples: Ghost(Seq::empty()),
        };
        proof {
            assert(m.growth_window() =~= latest(growths(m.samples@), WINDOW_CAPACITY as nat));
            assert(m.accel_window() =~= latest(
                accelerations(m.samples@),
                WINDOW_CAPACITY as nat,
            ));
        }
        m
    }

    /// The growth window, oldest value first.
    pub fn growth_history(&self) -> (window: &Vec<i128>)
        ensures
            as_ints(window@) == self.growth_window(),
    {
        &self.growth
    }

    /// The acceleration window, oldest value first.
    pub fn accel_history(&self) -> (window: &Vec<i128>)
        ensures
            as_ints(window@) == self.accel_window(),
    {
        &self.accel
    }

    /// Takes one sample: `solid_count` is the count of solid k-mers at record index
    /// `record_index`. Both windows move on, and the report says what they hold now and
    /// whether the scan should stop.
    pub fn sample(&mut self, record_index: u64, solid_count: u64) -> (ev: StatusEvent)
        requires
            old(self).wf(),
        ensures
            final(self).wf(),
            final(self).samples() == old(self).samples().push(solid_count),
            ev == status(final(self).samples(), record_index),
    {
        let ghost before = self.samples@;
        let ghost after = before.push(solid_count);
        proof {
            growths_push(before, solid_count);
            accelerations_push(before, solid_count);
            deltas_in_range(before);
            deltas_in_range(after);
            latest_push(growths(before), growths(after).last(), WINDOW_CAPACITY as nat);
        }
        let growth: i128 = solid_count as i128 - self.prev as i128;
        self.growth.push(growth);
        if self.growth.len() > WINDOW_CAPACITY {
            self.growth.remove(0);
        }
        proof {
            assert(as_ints(self.growth@) =~= latest(growths(after), WINDOW_CAPACITY as nat));
            window_in_range(self.growth@, growths(after), WINDOW_CAPACITY as nat);
        }
        let n: usize = self.growth.len();
        if n >= 2 {
            let acceleration: i128 = self.growth[n - 1] - self.growth[n - 2];
            proof {
                latest_push(
                    accelerations(before),
                    accelerations(after).last(),
                    WINDOW_CAPACITY as nat,
                );
                let window = as_ints(self.growth@);
                assert(window.len() == n);
                assert(window[n - 1] == self.growth@[n - 1] as int);
                assert(window[n - 2] == self.growth@[n - 2] as int);
                assert(window[n - 1] == growths(after).last());
                assert(window[n - 2] == growths(before).last());
                assert(acceleration == accelerations(after).last());
            }
            self.accel.push(acceleration);
            if self.accel.len() > WINDOW_CAPACITY {
                self.accel.remove(0);
            }
        }
        proof {
            assert(as_ints(self.accel@) =~= latest(
                accelerations(after),
                WINDOW_CAPACITY as nat,
            ));
            window_in_range(self.accel@, accelerations(after), WINDOW_CAPACITY as nat);
            total_in_range(as_ints(self.growth@));
            total_in_range(as_ints(self.accel@));
        }
        let growth_sum = sum_window(&self.growth);
        let accel_sum = sum_window(&self.accel);
        let accel_len: usize = self.accel.len();
        assert(accel_len == as_ints(self.accel@).len() && accel_len <= WINDOW_CAPACITY);
        let stop = record_index > MIN_RECORDS && (accel_len == 0 || (-ACCEL_THRESHOLD * (
        accel_len as i128) < accel_sum && accel_sum < ACCEL_THRESHOLD * (accel_len as i128)));
        self.prev = solid_count;
        self.samples = Ghost(after);
        StatusEvent {
            reads: record_index,
            kmers: solid_count,
            growth_sum,
            growth_len: n,
            accel_sum,
            accel_len,
            stop,
        }
    }
}

} // verus!
