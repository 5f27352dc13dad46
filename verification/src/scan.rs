//! The scan: records in, status reports out.
//!
//! A scan takes the records of a stream one at a time, in order. Each record's k-mers go
//! to the solidity tracker, and at a fixed stride of records the convergence monitor is
//! given the count of solid k-mers and reports. The caller reads the stream and makes the
//! reports known; the scan decides what is counted, when a sample is due, and when to stop.

use crate::monitor::status;
use crate::monitor::ConvergenceMonitor;
use crate::monitor::StatusEvent;
use crate::tracker::canonical_windows;
use crate::tracker::solid_kmers;
use crate::tracker::SolidityTracker;
use vstd::multiset::Multiset;
use vstd::prelude::*;

verus! {

/// A sample is due at every record whose index is a multiple of this.
pub const SAMPLING_STRIDE: u64 = 10000;

/// The state of a scan, as contracts see it.
pub struct ScanModel {
    /// The length of a k-mer.
    pub k: nat,
    /// The number of records taken so far, which is the index of the next one.
    pub records: nat,
    /// Every canonical k-mer observed so far, as often as it was observed.
    pub seen: Multiset<Seq<u8>>,
    /// Every sample handed to the monitor so far, oldest first.
    pub samples: Seq<u64>,
}

/// Whether a sample is taken at `record`, the record of index `index`: its index is a
/// multiple of the stride, and it is not shorter than `k`. A record shorter than `k` is
/// skipped as a whole, a sample that would be due at it included.
pub open spec fn sampled(index: nat, record: Seq<u8>, k: nat) -> bool {
    record.len() >= k && index % (SAMPLING_STRIDE as nat) == 0
}

/// The k-mers seen once a scan in state `m` has taken `record`.
pub open spec fn seen_with(m: ScanModel, record: Seq<u8>) -> Multiset<Seq<u8>> {
    m.seen.add(canonical_windows(record, m.k).to_multiset())
}

/// The state of a scan that was in state `m` and has taken `record`.
pub open spec fn fed(m: ScanModel, record: Seq<u8>) -> ScanModel {
    ScanModel {
        k: m.k,
        records: m.records + 1,
        seen: seen_with(m, record),
        samples: if sampled(m.records, record, m.k) {
            m.samples.push(solid_kmers(seen_with(m, record)).len() as u64)
        } else {
            m.samples
        },
    }
}

/// What a scan in state `m` reports on taking `record`: the monitor's report where a
/// sample is taken, and nothing elsewhere.
pub open spec fn report(m: ScanModel, record: Seq<u8>) -> Option<StatusEvent> {
    if sampled(m.records, record, m.k) {
        Some(status(fed(m, record).samples, m.records as u64))
    } else {
        None
    }
}

/// Whether a scan in state `m` stops on taking `record`.
pub open spec fn stops(m: ScanModel, record: Seq<u8>) -> bool {
    match report(m, record) {
        Some(ev) => ev.stop,
        None => false,
    }
}

/// The state of a scan that was in state `m` and has taken all of `records`, in order.
pub open spec fn fed_all(m: ScanModel, records: Seq<Seq<u8>>) -> ScanModel
    decreases records.len(),
{
    if records.len() == 0 {
        m
    } else {
        fed(fed_all(m, records.drop_last()), records.last())
    }
}

/// The reports of a scan that was in state `m` and has taken all of `records`, in order.
pub open spec fn reports(m: ScanModel, records: Seq<Seq<u8>>) -> Seq<StatusEvent>
    decreases records.len(),
{
    if records.len() == 0 {
        Seq::empty()
    } else {
        match report(fed_all(m, records.drop_last()), records.last()) {
            Some(ev) => reports(m, records.drop_last()).push(ev),
            None => reports(m, records.drop_last()),
        }
    }
}

/// Whether a scan that started in state `m` and has taken the records before the one of
/// position `i` stops on taking that one.
pub open spec fn stops_at(m: ScanModel, records: Seq<Seq<u8>>, i: int) -> bool {
    stops(fed_all(m, records.take(i)), records[i])
}

/// The records of a batch, each as the sequence of its symbols.
pub open spec fn symbols(records: Seq<Vec<u8>>) -> Seq<Seq<u8>> {
    records.map_values(|r: Vec<u8>| r@)
}

/// A record shorter than `k` is skipped: it counts as a record taken, and nothing else
/// changes and nothing is reported.
pub proof fn short_record_is_skipped(m: ScanModel, record: Seq<u8>)
    requires
        record.len() < m.k,
    ensures
        fed(m, record).records == m.records + 1,
        fed(m, record).k == m.k,
        fed(m, record).seen == m.seen,
        fed(m, record).samples == m.samples,
        report(m, record).is_none(),
{
    let kmers = canonical_windows(record, m.k);
    kmers.to_multiset_ensures();
    assert(m.seen.add(kmers.to_multiset()) =~= m.seen);
}

/// What a batch run gives back.
pub struct ScanOutcome {
    /// The reports, in the order in which they came.
    pub events: Vec<StatusEvent>,
    /// Whether the run ended on a report that called for a stop, rather than at the end
    /// of the batch.
    pub stopped: bool,
}

/// A scan in progress.
pub struct Scan {
    k: usize,
    index: u64,
    tracker: SolidityTracker,
    monitor: ConvergenceMonitor,
}

impl View for Scan {
    type V = ScanModel;

    closed spec fn view(&self) -> ScanModel {
        ScanModel {
            k: self.k as nat,
            records: self.index as nat,
            seen: self.tracker.seen(),
            samples: self.monitor.samples(),
        }
    }
}

impl Scan {
    /// The tracker and the monitor are in order.
    pub closed spec fn wf(&self) -> bool {
        self.tracker.wf() && self.monitor.wf()
    }

    /// A scan for k-mers of length `k` that has taken no record.
    pub fn new(k: usize) -> (scan: Self)
        ensures
            scan.wf(),
            scan@.k == k,
            scan@.records == 0,
            scan@.seen == Multiset::<Seq<u8>>::empty(),
            scan@.samples == Seq::<u64>::empty(),
    {
        Scan { k, index: 0, tracker: SolidityTracker::new(), monitor: ConvergenceMonitor::new() }
    }

    /// The length of a k-mer.
    pub fn k(&self) -> (k: usize)
        ensures
            k == self@.k,
    {
        self.k
    }

    /// The number of records taken so far.
    pub fn records_taken(&self) -> (n: u64)
        ensures
            n == self@.records,
    {
        self.index
    }

    /// The number of solid k-mers so far.
    pub fn solid_count(&self) -> (n: usize)
        requires
            self.wf(),
        ensures
            n == solid_kmers(self@.seen).len(),
    {
        self.tracker.solid_count()
    }

    /// Takes the next record of the stream. Its k-mers are observed, from left to right,
    /// and where a sample is due the monitor's report is returned. A report whose `stop`
    /// is set ends the scan.
    pub fn feed(&mut self, record: &[u8]) -> (ev: Option<StatusEvent>)
        requires
            old(self).wf(),
            old(self)@.records < u64::MAX,
        ensures
            final(self).wf(),
            final(self)@ == fed(old(self)@, record@),
            ev == report(old(self)@, record@),
    {
        self.tracker.observe_record(record, self.k);
        let due = record.len() >= self.k && self.index % SAMPLING_STRIDE == 0;
        let ev = if due {
            let solid = self.tracker.solid_count();
            Some(self.monitor.sample(self.index, solid as u64))
        } else {
            None
        };
        self.index = self.index + 1;
        ev
    }

    /// Takes the records of a batch, in order, until one calls for a stop or none is left.
    /// The records taken are a prefix of the batch; none before the last of them called
    /// for a stop, and the last did if and only if `stopped` is set.
    pub fn run(&mut self, records: &[Vec<u8>]) -> (out: ScanOutcome)
        requires
            old(self).wf(),
            old(self)@.records + records@.len() <= u64::MAX,
        ensures
            final(self).wf(),
            old(self)@.records <= final(self)@.records <= old(self)@.records + records@.len(),
            final(self)@ == fed_all(
                old(self)@,
                symbols(records@).take(final(self)@.records - old(self)@.records),
            ),
            out.events@ == reports(
                old(self)@,
                symbols(records@).take(final(self)@.records - old(self)@.records),
            ),
            forall|i: int|
                0 <= i < final(self)@.records - old(self)@.records ==> (#[trigger] stops_at(
                    old(self)@,
                    symbols(records@),
                    i,
                ) <==> out.stopped && i == final(self)@.records - old(self)@.records - 1),
            out.stopped ==> final(self)@.records > old(self)@.records,
            !out.stopped ==> final(self)@.records == old(self)@.records + records@.len(),
    {
        let ghost start = self@;
        let ghost batch = symbols(records@);
        let mut events: Vec<StatusEvent> = Vec::new();
        let mut stopped = false;
        let mut i: usize = 0;
        assert(batch.take(0) =~= Seq::<Seq<u8>>::empty());
        while i < records.len() && !stopped
            invariant
                self.wf(),
                i <= records@.len(),
                batch == symbols(records@),
                start.records + records@.len() <= u64::MAX,
                self@.records == start.records + i,
                self@ == fed_all(start, batch.take(i as int)),
                events@ == reports(start, batch.take(i as int)),
                forall|j: int|
                    0 <= j < i ==> (#[trigger] stops_at(start, batch, j) <==> stopped && j == i
                        - 1),
                stopped ==> i > 0,
            decreases records@.len() - i,
        {
            let ev = self.feed(records[i].as_slice());
            proof {
                assert(batch.take(i + 1).drop_last() =~= batch.take(i as int));
                assert(batch.take(i + 1).last() == records@[i as int]@);
            }
            match ev {
                Some(e) => {
                    events.push(e);
                    stopped = e.stop;
                },
                None => {},
            }
            i += 1;
        }
        ScanOutcome { events, stopped }
    }
}

} // verus!
