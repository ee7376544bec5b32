use vstd::prelude::*;

verus! {

/// A span of time, as whole seconds and the nanoseconds below one second.
#[derive(Debug, Clone, Copy)]
pub struct Timeout {
    secs: u64,
    nanos: u32,
}

pub open spec fn nanos_per_sec() -> int {
    1_000_000_000
}

impl Timeout {
    #[verifier::type_invariant]
    spec fn wf(self) -> bool {
        self.nanos < 1_000_000_000
    }

    pub closed spec fn secs_spec(self) -> u64 {
        self.secs
    }

    pub closed spec fn nanos_spec(self) -> u32 {
        self.nanos
    }

    /// The span in nanoseconds.
    pub open spec fn total_nanos(self) -> int {
        self.secs_spec() * nanos_per_sec() + self.nanos_spec()
    }

    /// The span in whole milliseconds.
    pub open spec fn millis_spec(self) -> int {
        self.secs_spec() * 1000 + self.nanos_spec() / 1_000_000
    }

    /// A span of `secs` seconds and `nanos` nanoseconds; nanoseconds of a
    /// second or more carry into the seconds.
    pub fn new(secs: u64, nanos: u32) -> (t: Timeout)
        requires
            secs + nanos / 1_000_000_000 <= u64::MAX,
        ensures
            t.total_nanos() == secs * nanos_per_sec() + nanos,
            t.nanos_spec() < 1_000_000_000,
    {
        let carry: u32 = nanos / 1_000_000_000;
        let rest: u32 = nanos % 1_000_000_000;
        Timeout { secs: secs + carry as u64, nanos: rest }
    }

    /// A span of whole seconds.
    pub fn from_secs(secs: u64) -> (t: Timeout)
        ensures
            t.secs_spec() == secs,
            t.nanos_spec() == 0,
    {
        Timeout { secs, nanos: 0 }
    }

    /// A span of whole milliseconds.
    pub fn from_millis(millis: u64) -> (t: Timeout)
        ensures
            t.total_nanos() == millis * 1_000_000,
            t.nanos_spec() < 1_000_000_000,
    {
        let secs: u64 = millis / 1000;
        let rest: u64 = millis % 1000;
        let nanos: u32 = (rest * 1_000_000) as u32;
        Timeout { secs, nanos }
    }

    /// The span in nanoseconds.
    pub fn as_nanos(&self) -> (n: u128)
        ensures
            n == self.total_nanos(),
    {
        proof {
            use_type_invariant(self);
        }
        let n: u128 = self.secs as u128 * 1_000_000_000 + self.nanos as u128;
        n
    }

    /// A span made from whole milliseconds reads back as those milliseconds.
    pub proof fn lemma_millis_round_trip(t: Timeout, millis: u64)
        requires
            t.total_nanos() == millis * 1_000_000,
            t.nanos_spec() < 1_000_000_000,
        ensures
            t.millis_spec() == millis,
    {
        let s: int = t.secs_spec() as int;
        let n: int = t.nanos_spec() as int;
        let m: int = millis as int;
        assert(s * 1_000_000_000 + n == m * 1_000_000);
        assert(n == (m - s * 1000) * 1_000_000) by (nonlinear_arith)
            requires
                s * 1_000_000_000 + n == m * 1_000_000,
        ;
        assert(n / 1_000_000 == m - s * 1000) by (nonlinear_arith)
            requires
                n == (m - s * 1000) * 1_000_000,
        ;
    }

    /// The whole seconds of the span.
    pub fn as_secs(&self) -> (s: u64)
        ensures
            s == self.secs_spec(),
    {
        self.secs
    }

    /// The nanoseconds below one second.
    pub fn subsec_nanos(&self) -> (n: u32)
        ensures
            n == self.nanos_spec(),
            n < 1_000_000_000,
    {
        proof {
            use_type_invariant(self);
        }
        self.nanos
    }

    /// The span in whole milliseconds.
    pub fn as_millis(&self) -> (m: u128)
        ensures
            m == self.millis_spec(),
    {
        let ms: u128 = self.secs as u128 * 1000 + (self.nanos / 1_000_000) as u128;
        ms
    }
}

} // verus!
