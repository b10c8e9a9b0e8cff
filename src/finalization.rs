use vstd::prelude::*;
use std::sync::Arc;
use crate::value::LogEvent;

verus! {

/// The terminal outcome for one or more events.
#[derive(Debug, Clone, Copy, PartialEq, Eq, Structural)]
pub enum EventStatus {
    Delivered,
    Dropped,
    Errored,
    Rejected,
}

/// How bad an outcome is: a batch reports the worst outcome among its parts.
pub open spec fn severity(s: EventStatus) -> nat {
    match s {
        EventStatus::Delivered => 0,
        EventStatus::Dropped => 1,
        EventStatus::Errored => 2,
        EventStatus::Rejected => 3,
    }
}

pub open spec fn worst(a: EventStatus, b: EventStatus) -> EventStatus {
    if severity(a) >= severity(b) {
        a
    } else {
        b
    }
}

impl EventStatus {
    fn severity(self) -> (r: u8)
        ensures
            r as nat == severity(self),
    {
        match self {
            EventStatus::Delivered => 0,
            EventStatus::Dropped => 1,
            EventStatus::Errored => 2,
            EventStatus::Rejected => 3,
        }
    }

    /// Combines two partial outcomes into the worse of the two.
    pub fn update(self, other: EventStatus) -> (r: EventStatus)
        ensures
            r == worst(self, other),
    {
        if self.severity() >= other.severity() {
            self
        } else {
            other
        }
    }
}

/// Why a finalization request was refused.
#[derive(Debug, Clone, Copy, PartialEq, Eq, Structural)]
pub enum FinalizeError {
    /// The batch already has its terminal status.
    AlreadyTerminal,
    /// No batch with that handle exists.
    UnknownBatch,
    /// The batch cannot hold that many more references.
    TooManyReferences,
}

/// The shared finalization state of one batch: how many event references are
/// still in flight, and the worst outcome reported so far.
#[derive(Debug, Clone, Copy, PartialEq, Eq, Structural)]
pub struct BatchFinalizer {
    pub outstanding: u64,
    pub status: EventStatus,
}

impl BatchFinalizer {
    pub open spec fn spec_new(events: u64) -> BatchFinalizer {
        BatchFinalizer { outstanding: events, status: EventStatus::Delivered }
    }

    pub open spec fn is_terminal(self) -> bool {
        self.outstanding == 0
    }

    /// The state after one event reference reports `s`.
    pub open spec fn spec_record(self, s: EventStatus) -> BatchFinalizer {
        BatchFinalizer { outstanding: (self.outstanding - 1) as u64, status: worst(self.status, s) }
    }

    pub open spec fn spec_terminal_status(self) -> Option<EventStatus> {
        if self.is_terminal() {
            Some(self.status)
        } else {
            None
        }
    }

    /// A pending batch of `events` event references.
    pub fn new(events: u64) -> (r: BatchFinalizer)
        ensures
            r == Self::spec_new(events),
    {
        BatchFinalizer { outstanding: events, status: EventStatus::Delivered }
    }

    /// Adds `count` references, one for each further copy of an event.
    pub fn add_references(&mut self, count: u64) -> (r: Result<(), FinalizeError>)
        ensures
            old(self).is_terminal() ==> r == Err::<(), _>(FinalizeError::AlreadyTerminal)
                && *final(self) == *old(self),
            !old(self).is_terminal() && old(self).outstanding + count > u64::MAX ==> r == Err::<
                (),
                _,
            >(FinalizeError::TooManyReferences) && *final(self) == *old(self),
            !old(self).is_terminal() && old(self).outstanding + count <= u64::MAX ==> r is Ok
                && final(self).outstanding == old(self).outstanding + count && final(self).status
                == old(self).status,
    {
        if self.outstanding == 0 {
            return Err(FinalizeError::AlreadyTerminal);
        }
        match self.outstanding.checked_add(count) {
            Some(n) => {
                self.outstanding = n;
                Ok(())
            },
            None => Err(FinalizeError::TooManyReferences),
        }
    }

    /// Records the outcome `s` of one event reference.
    pub fn record(&mut self, s: EventStatus) -> (r: Result<(), FinalizeError>)
        ensures
            old(self).is_terminal() ==> r == Err::<(), _>(FinalizeError::AlreadyTerminal)
                && *final(self) == *old(self),
            !old(self).is_terminal() ==> r is Ok && *final(self) == old(self).spec_record(s),
    {
        if self.outstanding == 0 {
            return Err(FinalizeError::AlreadyTerminal);
        }
        self.outstanding = self.outstanding - 1;
        self.status = self.status.update(s);
        Ok(())
    }

    /// The batch's terminal status, once every reference has reported.
    pub fn terminal_status(&self) -> (r: Option<EventStatus>)
        ensures
            r == self.spec_terminal_status(),
    {
        if self.outstanding == 0 {
            Some(self.status)
        } else {
            None
        }
    }
}

/// The finalization state of every batch, each known by its handle: its
/// position in `batches`.
#[derive(Debug)]
pub struct Finalizers {
    pub batches: Vec<BatchFinalizer>,
}

impl Finalizers {
    pub fn new() -> (r: Finalizers)
        ensures
            r.batches@.len() == 0,
    {
        Finalizers { batches: Vec::new() }
    }

    /// Opens a pending batch of `events` event references and returns its handle.
    pub fn new_batch(&mut self, events: u64) -> (r: usize)
        requires
            old(self).batches@.len() < usize::MAX,
        ensures
            r == old(self).batches@.len(),
            final(self).batches@ == old(self).batches@.push(BatchFinalizer::spec_new(events)),
    {
        let handle = self.batches.len();
        self.batches.push(BatchFinalizer::new(events));
        handle
    }

    /// Adds `count` references to the batch `batch`.
    pub fn add_references(&mut self, batch: usize, count: u64) -> (r: Result<(), FinalizeError>)
        ensures
            batch >= old(self).batches@.len() ==> r == Err::<(), _>(FinalizeError::UnknownBatch)
                && final(self).batches@ == old(self).batches@,
            batch < old(self).batches@.len() ==> {
                let b = old(self).batches@[batch as int];
                &&& b.is_terminal() ==> r == Err::<(), _>(FinalizeError::AlreadyTerminal)
                    && final(self).batches@ == old(self).batches@
                &&& !b.is_terminal() && b.outstanding + count > u64::MAX ==> r == Err::<(), _>(
                    FinalizeError::TooManyReferences,
                ) && final(self).batches@ == old(self).batches@
                &&& !b.is_terminal() && b.outstanding + count <= u64::MAX ==> r is Ok
                    && final(self).batches@ == old(self).batches@.update(
                    batch as int,
                    BatchFinalizer { outstanding: (b.outstanding + count) as u64, status: b.status },
                )
            },
    {
        if batch >= self.batches.len() {
            return Err(FinalizeError::UnknownBatch);
        }
        let mut b = self.batches[batch];
        let r = b.add_references(count);
        if r.is_ok() {
            self.batches.set(batch, b);
        }
        r
    }

    /// Records the outcome `s` of one event reference of the batch `batch`.
    pub fn record(&mut self, batch: usize, s: EventStatus) -> (r: Result<(), FinalizeError>)
        ensures
            batch >= old(self).batches@.len() ==> r == Err::<(), _>(FinalizeError::UnknownBatch)
                && final(self).batches@ == old(self).batches@,
            batch < old(self).batches@.len() && old(self).batches@[batch as int].is_terminal()
                ==> r == Err::<(), _>(FinalizeError::AlreadyTerminal) && final(self).batches@
                == old(self).batches@,
            batch < old(self).batches@.len() && !old(self).batches@[batch as int].is_terminal()
                ==> r is Ok && final(self).batches@ == old(self).batches@.update(
                batch as int,
                old(self).batches@[batch as int].spec_record(s),
            ),
    {
        if batch >= self.batches.len() {
            return Err(FinalizeError::UnknownBatch);
        }
        let mut b = self.batches[batch];
        let r = b.record(s);
        if r.is_ok() {
            self.batches.set(batch, b);
        }
        r
    }

    /// The terminal status of the batch `batch`, once it has one.
    pub fn status(&self, batch: usize) -> (r: Option<EventStatus>)
        ensures
            batch >= self.batches@.len() ==> r is None,
            batch < self.batches@.len() ==> r == self.batches@[batch as int].spec_terminal_status(),
    {
        if batch >= self.batches.len() {
            None
        } else {
            self.batches[batch].terminal_status()
        }
    }
}

/// The table after one event reference of the batch `id` reports `s`, or why
/// that report is refused; an event with no batch changes nothing.
pub open spec fn record_step(bs: Seq<BatchFinalizer>, id: Option<usize>, s: EventStatus) -> Result<
    Seq<BatchFinalizer>,
    FinalizeError,
> {
    match id {
        None => Ok(bs),
        Some(b) => if b >= bs.len() {
            Err(FinalizeError::UnknownBatch)
        } else if bs[b as int].is_terminal() {
            Err(FinalizeError::AlreadyTerminal)
        } else {
            Ok(bs.update(b as int, bs[b as int].spec_record(s)))
        },
    }
}

/// The table after the events with batches `ids` report `s` in turn, stopping
/// at the first refused report, and that report's error.
pub open spec fn record_all(bs: Seq<BatchFinalizer>, ids: Seq<Option<usize>>, s: EventStatus) -> (
    Seq<BatchFinalizer>,
    Option<FinalizeError>,
)
    decreases ids.len(),
{
    if ids.len() == 0 {
        (bs, None)
    } else {
        let (prev, e) = record_all(bs, ids.drop_last(), s);
        if e is Some {
            (prev, e)
        } else {
            match record_step(prev, ids.last(), s) {
                Ok(next) => (next, None),
                Err(x) => (prev, Some(x)),
            }
        }
    }
}

pub open spec fn batch_ids(events: Seq<Arc<LogEvent>>) -> Seq<Option<usize>> {
    events.map_values(|e: Arc<LogEvent>| e.batch)
}

impl Finalizers {
    /// Records the outcome `s` for every event of `events`, in order, stopping
    /// at the first report that is refused.
    pub fn record_events(&mut self, events: &Vec<Arc<LogEvent>>, s: EventStatus) -> (r: Result<
        (),
        FinalizeError,
    >)
        ensures
            final(self).batches@ == record_all(old(self).batches@, batch_ids(events@), s).0,
            r is Ok <==> record_all(old(self).batches@, batch_ids(events@), s).1 is None,
            r matches Err(e) ==> record_all(old(self).batches@, batch_ids(events@), s).1 == Some(e),
    {
        let ghost b0 = self.batches@;
        let ghost ids = batch_ids(events@);
        let mut i: usize = 0;
        while i < events.len()
            invariant
                i <= events@.len(),
                ids == batch_ids(events@),
                b0 == old(self).batches@,
                record_all(b0, ids.take(i as int), s) == (self.batches@, None::<FinalizeError>),
            decreases events@.len() - i,
        {
            proof {
                assert(ids.take(i as int + 1).drop_last() =~= ids.take(i as int));
                assert(ids.take(i as int + 1).last() == events@[i as int].batch);
            }
            match events[i].batch {
                Some(b) => {
                    let r = self.record(b, s);
                    if let Err(e) = r {
                        proof {
                            assert(record_step(self.batches@, Some(b), s) == Err::<
                                Seq<BatchFinalizer>,
                                FinalizeError,
                            >(e));
                            assert(record_all(b0, ids.take(i as int + 1), s) == (
                                self.batches@,
                                Some(e),
                            ));
                            lemma_record_all_stops(b0, ids, s, i as int + 1);

                        }
                        return Err(e);
                    }
                },
                None => {},
            }
            i = i + 1;
        }
        proof {
            assert(ids.take(events@.len() as int) =~= ids);
        }
        Ok(())
    }
}

proof fn lemma_record_all_stops(bs: Seq<BatchFinalizer>, ids: Seq<Option<usize>>, s: EventStatus, n: int)
    requires
        0 <= n <= ids.len(),
        record_all(bs, ids.take(n), s).1 is Some,
    ensures
        record_all(bs, ids, s) == record_all(bs, ids.take(n), s),
    decreases ids.len() - n,
{
    if n < ids.len() {
        assert(ids.take(n + 1).drop_last() =~= ids.take(n));
        lemma_record_all_stops(bs, ids, s, n + 1);
    } else {
        assert(ids.take(n) =~= ids);
    }
}

/// The state after each report of `reports` in turn.
pub open spec fn after_reports(b: BatchFinalizer, reports: Seq<EventStatus>) -> BatchFinalizer
    decreases reports.len(),
{
    if reports.len() == 0 {
        b
    } else {
        after_reports(b, reports.drop_last()).spec_record(reports.last())
    }
}

proof fn lemma_uniform_reports(n: u64, s: EventStatus, k: nat)
    requires
        k <= n,
    ensures
        after_reports(BatchFinalizer::spec_new(n), Seq::new(k, |i: int| s)).outstanding == n - k,
        after_reports(BatchFinalizer::spec_new(n), Seq::new(k, |i: int| s)).status == (if k == 0 {
            EventStatus::Delivered
        } else {
            s
        }),
    decreases k,
{
    if k > 0 {
        lemma_uniform_reports(n, s, (k - 1) as nat);
        assert(Seq::new(k, |i: int| s).drop_last() =~= Seq::new((k - 1) as nat, |i: int| s));
    }
}

/// A batch of `n` events that each report `s` once reaches the terminal status
/// `s`; with fewer reports it is still pending.
pub proof fn lemma_batch_reaches_reported_status(n: u64, s: EventStatus, k: nat)
    requires
        n > 0,
        k <= n,
    ensures
        k == n ==> after_reports(BatchFinalizer::spec_new(n), Seq::new(k, |i: int| s)).spec_terminal_status()
            == Some(s),
        k < n ==> after_reports(BatchFinalizer::spec_new(n), Seq::new(k, |i: int| s)).spec_terminal_status()
            is None,
{
    lemma_uniform_reports(n, s, k);
}

/// The aggregate outcome does not depend on the order of the reports, and the
/// worse of two outcomes wins.
pub proof fn lemma_worst_outcome_wins(b: BatchFinalizer, s1: EventStatus, s2: EventStatus)
    requires
        b.outstanding >= 2,
    ensures
        b.spec_record(s1).spec_record(s2) == b.spec_record(s2).spec_record(s1),
        b.spec_record(s1).spec_record(s2).status == worst(b.status, worst(s1, s2)),
{
}

/// A batch split across two outputs, one reporting an error and the other a
/// delivery, ends as errored, in either order.
pub proof fn lemma_split_batch_errored(b: BatchFinalizer)
    requires
        b == BatchFinalizer::spec_new(2),
    ensures
        b.spec_record(EventStatus::Errored).spec_record(EventStatus::Delivered).spec_terminal_status()
            == Some(EventStatus::Errored),
        b.spec_record(EventStatus::Delivered).spec_record(EventStatus::Errored).spec_terminal_status()
            == Some(EventStatus::Errored),
{
}

} // verus!
