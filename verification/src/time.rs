//! Durations and the system clock.
use vstd::prelude::*;

verus! {

/// A span of time: whole seconds and the nanoseconds past them.
#[derive(Clone, Copy, Debug, PartialEq, Eq, Structural)]
pub struct Duration {
    pub secs: u64,
    /// Nanoseconds past the whole seconds, below one second.
    pub nanos: u32,
}

impl Duration {
    /// The length in nanoseconds.
    pub open spec fn total_nanos(&self) -> nat {
        self.secs as nat * 1_000_000_000 + self.nanos as nat
    }

    pub open spec fn wf(&self) -> bool {
        self.nanos < 1_000_000_000
    }

    /// A duration of `secs` seconds.
    pub fn from_secs(secs: u64) -> (res: Self)
        ensures
            res.secs == secs,
            res.nanos == 0,
            res.wf(),
    {
        Duration { secs, nanos: 0 }
    }

    /// A duration of `millis` milliseconds.
    pub fn from_millis(millis: u64) -> (res: Self)
        ensures
            res.wf(),
            res.total_nanos() == millis as nat * 1_000_000,
    {
        let secs = millis / 1000;
        let nanos = ((millis % 1000) * 1_000_000) as u32;
        assert(millis as nat * 1_000_000 == (millis / 1000) as nat * 1_000_000_000 + (millis % 1000) as nat * 1_000_000) by (nonlinear_arith);
        Duration { secs, nanos }
    }

    /// A duration of `nanos` nanoseconds.
    pub fn from_nanos(nanos: u64) -> (res: Self)
        ensures
            res.wf(),
            res.total_nanos() == nanos as nat,
    {
        let secs = nanos / 1_000_000_000;
        let rest = (nanos % 1_000_000_000) as u32;
        assert(nanos as nat == (nanos / 1_000_000_000) as nat * 1_000_000_000 + (nanos % 1_000_000_000) as nat) by (nonlinear_arith);
        Duration { secs, nanos: rest }
    }

    /// The length in whole milliseconds.
    pub fn as_millis(&self) -> (res: u128)
        requires
            self.wf(),
        ensures
            res == self.total_nanos() / 1_000_000,
    {
        let r = self.secs as u128 * 1000 + (self.nanos / 1_000_000) as u128;
        assert((self.secs as nat * 1_000_000_000 + self.nanos as nat) / 1_000_000
            == self.secs as nat * 1000 + (self.nanos as nat / 1_000_000)) by (nonlinear_arith)
            requires self.nanos < 1_000_000_000;
        r
    }

    /// The number of whole seconds.
    pub fn as_secs(&self) -> (res: u64)
        ensures
            res == self.secs,
    {
        self.secs
    }
}

/// The current Unix time in seconds, read from `SystemTime::now()`; a clock earlier
/// than the epoch reads as zero.  Nothing is promised of the value: it is the
/// machine's clock.
#[verifier::external_body]
pub(crate) fn unix_now_secs() -> u64 {
    match std::time::SystemTime::now().duration_since(std::time::UNIX_EPOCH) {
        Ok(d) => d.as_secs(),
        Err(_) => 0,
    }
}

} // verus!
