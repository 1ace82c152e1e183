use vstd::prelude::*;

verus! {

/// How many times a file's size is read before giving up.
pub const MAX_POLLS: u32 = 8;

/// Milliseconds to wait between two reads of a file's size.
pub const POLL_INTERVAL_MS: u64 = 350;

/// What a probe concludes after one read of a file's size.
#[derive(Clone, Copy, Debug, PartialEq, Eq, Structural)]
pub enum ProbeStep {
    /// Two consecutive reads gave this same size: writing has stopped.
    Stable(u64),
    /// Read again after the poll interval.
    Pending,
    /// The reads are spent without two equal consecutive sizes.
    Unstable,
}

/// Waits, read by read, for a file's size to stop changing. A read is the
/// file's size, or `None` when it could not be read.
#[derive(Clone, Copy, Debug, PartialEq, Eq, Structural)]
pub struct StabilityProbe {
    pub last: Option<u64>,
    pub polls: u32,
}

/// The probe after one more read, and what it concludes.
pub open spec fn probe_step(s: StabilityProbe, reading: Option<u64>) -> (StabilityProbe, ProbeStep) {
    if s.polls >= MAX_POLLS {
        (s, ProbeStep::Unstable)
    } else {
        let next = StabilityProbe { last: reading, polls: (s.polls + 1) as u32 };
        match reading {
            Some(v) if s.last == Some(v) => (next, ProbeStep::Stable(v)),
            _ => (next, if next.polls >= MAX_POLLS { ProbeStep::Unstable } else { ProbeStep::Pending }),
        }
    }
}

/// The size a probe in state `s` settles on when fed `readings` in turn:
/// `None` when it gives up, or the readings run out first.
pub open spec fn probe_run(s: StabilityProbe, readings: Seq<Option<u64>>) -> Option<u64>
    decreases readings.len(),
{
    if readings.len() == 0 {
        None
    } else {
        let (next, step) = probe_step(s, readings[0]);
        match step {
            ProbeStep::Stable(v) => Some(v),
            ProbeStep::Unstable => None,
            ProbeStep::Pending => probe_run(next, readings.drop_first()),
        }
    }
}

impl StabilityProbe {
    /// A probe that has read nothing yet.
    pub fn new() -> (r: Self)
        ensures
            r == (StabilityProbe { last: None, polls: 0 }),
    {
        StabilityProbe { last: None, polls: 0 }
    }

    /// Takes one read of the file's size and says whether the size is now
    /// known to be stable, whether to read again, or whether to give up.
    pub fn observe(&mut self, reading: Option<u64>) -> (r: ProbeStep)
        ensures
            (*final(self), r) == probe_step(*old(self), reading),
    {
        if self.polls >= MAX_POLLS {
            return ProbeStep::Unstable;
        }
        let previous = self.last;
        self.last = reading;
        self.polls = self.polls + 1;
        match reading {
            Some(v) => {
                if previous == Some(v) {
                    return ProbeStep::Stable(v);
                }
            },
            None => {},
        }
        if self.polls >= MAX_POLLS {
            ProbeStep::Unstable
        } else {
            ProbeStep::Pending
        }
    }
}

/// A file whose size reads the same twice in a row is found stable at that
/// size on the second read.
pub proof fn lemma_steady_size_settles(v: u64, rest: Seq<Option<u64>>)
    ensures
        probe_run(StabilityProbe { last: None, polls: 0 }, seq![Some(v), Some(v)] + rest) == Some(v),
{
    let rs = seq![Some(v), Some(v)] + rest;
    let s1 = StabilityProbe { last: Some(v), polls: 1 };
    assert(probe_step(StabilityProbe { last: None, polls: 0 }, rs[0]) == (s1, ProbeStep::Pending));
    assert(rs.drop_first()[0] == Some(v));
    assert(probe_step(s1, Some(v)).1 == ProbeStep::Stable(v));
    assert(probe_run(s1, rs.drop_first()) == Some(v));
}

/// Once a file can no longer be read, the probe settles on no size.
pub proof fn lemma_unreadable_never_settles(s: StabilityProbe, readings: Seq<Option<u64>>)
    requires
        forall|i: int| 0 <= i < readings.len() ==> readings[i] is None,
    ensures
        probe_run(s, readings) is None,
    decreases readings.len(),
{
    if readings.len() > 0 {
        let (next, step) = probe_step(s, readings[0]);
        if step is Pending {
            let rest = readings.drop_first();
            assert forall|i: int| 0 <= i < rest.len() implies rest[i] is None by {
                assert(rest[i] == readings[i + 1]);
            }
            lemma_unreadable_never_settles(next, rest);
        }
    }
}

/// A file that is read once and then vanishes is never found stable.
pub proof fn lemma_vanished_file_never_settles(v: u64, rest: Seq<Option<u64>>)
    requires
        forall|i: int| 0 <= i < rest.len() ==> rest[i] is None,
    ensures
        probe_run(StabilityProbe { last: None, polls: 0 }, seq![Some(v)] + rest) is None,
{
    let rs = seq![Some(v)] + rest;
    assert(rs.drop_first() =~= rest);
    lemma_unreadable_never_settles(StabilityProbe { last: Some(v), polls: 1 }, rest);
}

} // verus!
