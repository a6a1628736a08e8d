use vstd::prelude::*;

verus! {

/// Statistics of a single transfer of bytes. Times are nanoseconds on a
/// monotonic clock.
#[derive(Debug, PartialEq, Eq, Structural, Clone, Copy)]
pub struct TransferStat {
    transfer_started: u64,
    transfer_ended: u64,
    bytes: u64,
}

impl TransferStat {
    pub closed spec fn started_spec(&self) -> u64 {
        self.transfer_started
    }

    pub closed spec fn ended_spec(&self) -> u64 {
        self.transfer_ended
    }

    pub closed spec fn bytes_spec(&self) -> u64 {
        self.bytes
    }

    pub fn new(transfer_started: u64, transfer_ended: u64, bytes: u64) -> (r: Self)
        ensures
            r.started_spec() == transfer_started,
            r.ended_spec() == transfer_ended,
            r.bytes_spec() == bytes,
    {
        TransferStat { transfer_started, transfer_ended, bytes }
    }

    /// The time at which this transfer started.
    pub fn started(&self) -> (r: u64)
        ensures
            r == self.started_spec(),
    {
        self.transfer_started
    }

    /// The time at which this transfer ended.
    pub fn ended(&self) -> (r: u64)
        ensures
            r == self.ended_spec(),
    {
        self.transfer_ended
    }

    /// How long this transfer took; zero if it ended before it started.
    pub fn duration(&self) -> (r: u64)
        ensures
            self.ended_spec() >= self.started_spec() ==> r == self.ended_spec()
                - self.started_spec(),
            self.ended_spec() < self.started_spec() ==> r == 0,
    {
        if self.transfer_ended >= self.transfer_started {
            self.transfer_ended - self.transfer_started
        } else {
            0
        }
    }

    /// How many bytes were transferred; 0 represents a failure.
    pub fn bytes(&self) -> (r: u64)
        ensures
            r == self.bytes_spec(),
    {
        self.bytes
    }

    /// Whether the transfer succeeded: it moved at least one byte.
    pub fn success(&self) -> (r: bool)
        ensures
            r == (self.bytes_spec() != 0),
    {
        self.bytes != 0
    }
}

} // verus!
