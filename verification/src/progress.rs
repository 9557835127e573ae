//! Progress reporting.
//!
//! The solver reports the current nonce to a host-supplied sink at a fixed
//! cadence: once at nonce 0 and then at every nonce divisible by 10000.
//! [`report_log`] is the exact sequence of values reported by a search
//! that has tried a given number of nonces, and the cadence lemma states
//! that consecutive reports are spaced by exactly 10000, so the reported
//! values are strictly increasing from 0.

use vstd::prelude::*;

verus! {

/// A progress reporter: the host-supplied observer that the solver calls
/// with the current nonce. `log()` is the abstract record of the values
/// reported so far.
pub trait ProgressSink {
    /// The values reported so far, oldest first.
    spec fn log(&self) -> Seq<u64>;

    /// Reports `value` as the current nonce. The call appends `value` to
    /// the abstract log and changes nothing else in it.
    fn report(&mut self, value: u64)
        ensures
            final(self).log() == old(self).log().push(value),
    ;
}

/// A sink that stores every reported value.
pub struct VecSink {
    pub reports: Vec<u64>,
}

impl VecSink {
    /// An empty sink.
    pub fn new() -> (s: VecSink)
        ensures
            s.log() == Seq::<u64>::empty(),
    {
        VecSink { reports: Vec::new() }
    }
}

impl ProgressSink for VecSink {
    open spec fn log(&self) -> Seq<u64> {
        self.reports@
    }

    fn report(&mut self, value: u64) {
        self.reports.push(value);
    }
}

/// A sink that ignores every report. The abstract log is still tracked,
/// in ghost state, so contracts over it keep their meaning.
pub struct NullSink {
    pub history: Ghost<Seq<u64>>,
}

impl NullSink {
    /// An empty sink.
    pub fn new() -> (s: NullSink)
        ensures
            s.log() == Seq::<u64>::empty(),
    {
        NullSink { history: Ghost(Seq::empty()) }
    }
}

impl ProgressSink for NullSink {
    open spec fn log(&self) -> Seq<u64> {
        self.history@
    }

    fn report(&mut self, value: u64) {
        let ghost h = self.history@.push(value);
        self.history = Ghost(h);
    }
}

/// How many reports a search has made once the nonces `0 .. tested` have
/// been tried: one for every multiple of 10000 below `tested`.
pub open spec fn report_count(tested: nat) -> nat {
    if tested == 0 {
        0
    } else {
        (((tested - 1) / 10000) + 1) as nat
    }
}

/// The exact values a search has reported once the nonces `0 .. tested`
/// have been tried: 0, 10000, 20000, and so on.
pub open spec fn report_log(tested: nat) -> Seq<u64> {
    Seq::new(report_count(tested), (|k: int| (k * 10000) as u64))
}

/// Trying one more nonce adds one report when that nonce is a multiple of
/// 10000 — the report carries the nonce itself — and none otherwise.
pub proof fn lemma_report_log_step(n: nat)
    requires
        n < u64::MAX,
    ensures
        n % 10000 == 0 ==> report_log(n + 1) == report_log(n).push(n as u64),
        n % 10000 != 0 ==> report_log(n + 1) == report_log(n),
{
    if n % 10000 == 0 {
        assert(report_count(n + 1) == report_count(n) + 1);
        assert(n / 10000 * 10000 == n);
        assert(report_log(n + 1) =~= report_log(n).push(n as u64));
    } else {
        assert(report_count(n + 1) == report_count(n));
        assert(report_log(n + 1) =~= report_log(n));
    }
}

/// The progress cadence: the first report carries nonce 0, and each later
/// report carries exactly 10000 more than the one before it, so the
/// reported values are strictly increasing.
pub proof fn lemma_report_cadence(tested: nat, k: int)
    requires
        tested <= u64::MAX,
    ensures
        0 < report_log(tested).len() ==> report_log(tested)[0] == 0,
        0 <= k && k + 1 < report_log(tested).len() ==> report_log(tested)[k + 1] == report_log(
            tested,
        )[k] + 10000,
        0 <= k && k + 1 < report_log(tested).len() ==> report_log(tested)[k] < report_log(
            tested,
        )[k + 1],
{
    if 0 <= k && k + 1 < report_log(tested).len() {
        assert((k + 1) * 10000 == k * 10000 + 10000);
        assert(k + 1 < report_count(tested));
        assert(report_count(tested) <= (((u64::MAX - 1) / 10000) + 1));
        assert((k + 1) * 10000 <= ((u64::MAX - 1) / 10000) * 10000);
    }
}

} // verus!
