//! Removal outcomes as plain data, for the caller's presentation layer to
//! format, suppress, or redirect.

use vstd::prelude::*;
use crate::space::DiskSpace;
use crate::space::sat_add;

verus! {

/// What the caller's removal attempt on one path came to.
#[derive(Clone, Copy, Debug, PartialEq, Eq, Structural)]
pub enum RemovalStatus {
    /// The file existed and was removed; `size` is its length in bytes, read
    /// before the removal.
    Removed { size: u64 },
    /// The path named no existing file.
    Missing,
    /// The file existed but could not be removed; its size is not counted.
    Failed,
}

/// One recorded outcome: the path it concerns (as components) and what
/// happened there.
#[derive(Debug)]
pub struct CleanupEvent {
    pub path: Vec<String>,
    pub status: RemovalStatus,
}

/// Collects one event per attempted removal, in order. The sink holds data
/// only; whether and how events are shown is the caller's policy.
#[derive(Debug)]
pub struct DeletionReporter {
    events: Vec<CleanupEvent>,
}

impl View for DeletionReporter {
    type V = Seq<CleanupEvent>;

    closed spec fn view(&self) -> Seq<CleanupEvent> {
        self.events@
    }
}

impl DeletionReporter {
    /// A reporter that has seen no outcomes yet.
    pub fn new() -> (r: DeletionReporter)
        ensures
            r@ == Seq::<CleanupEvent>::empty(),
    {
        DeletionReporter { events: Vec::new() }
    }

    /// Appends one outcome to the record.
    pub fn report(&mut self, path: Vec<String>, status: RemovalStatus)
        ensures
            final(self)@ == old(self)@.push(CleanupEvent { path, status }),
    {
        self.events.push(CleanupEvent { path, status });
    }

    /// The outcomes recorded so far, oldest first.
    pub fn events(&self) -> (r: &Vec<CleanupEvent>)
        ensures
            r@ == self@,
    {
        &self.events
    }
}

/// The byte total a record of outcomes accounts for: each removed file's size
/// counted once (saturating), missing and failed attempts counting nothing.
pub open spec fn counted_total(events: Seq<CleanupEvent>) -> u64
    decreases events.len(),
{
    if events.len() == 0 {
        0
    } else {
        match events.last().status {
            RemovalStatus::Removed { size } => sat_add(counted_total(events.drop_last()), size),
            _ => counted_total(events.drop_last()),
        }
    }
}

/// Books one removal attempt: a removed file's size is counted exactly once,
/// a missing or failed file adds nothing, and every attempt leaves exactly one
/// event behind. A counter that matches its record still matches it
/// afterwards, so the final total is exactly what the events account for.
pub fn record_outcome(
    path: Vec<String>,
    status: RemovalStatus,
    space: &mut DiskSpace,
    reporter: &mut DeletionReporter,
)
    ensures
        final(space)@ == match status {
            RemovalStatus::Removed { size } => sat_add(old(space)@, size),
            _ => old(space)@,
        },
        final(reporter)@ == old(reporter)@.push(CleanupEvent { path, status }),
        old(space)@ == counted_total(old(reporter)@) ==> final(space)@ == counted_total(
            final(reporter)@,
        ),
{
    proof {
        let after = old(reporter)@.push(CleanupEvent { path, status });
        assert(after.drop_last() =~= old(reporter)@);
        assert(after.last() == CleanupEvent { path, status });
    }
    match status {
        RemovalStatus::Removed { size } => {
            space.add(size);
        },
        RemovalStatus::Missing => {
        },
        RemovalStatus::Failed => {
        },
    }
    reporter.report(path, status);
}

} // verus!
