//! An HTTP load generator: given an endpoint URL and an optional
//! request-specification document, it sustains a target number of
//! concurrent requests for a fixed duration, measures per-request latency
//! and outcome, and aggregates the results.
//!
//! This crate holds the verified core: the weighted request corpus and
//! its compiler, the weighted sampler, the per-record statistics fold and
//! summary arithmetic, and the decision logic of the worker and of the
//! script bridge. The unverified shell around it parses the command line
//! and the document, performs the network and file I/O, and drives the
//! async runtime, handing this crate plain values.
#![verifier::loop_isolation(false)]
use vstd::prelude::*;

pub mod buffer;
pub mod hist;
pub mod request;
pub mod sampling;
pub mod scripting;
pub mod specification;
pub mod summary;
pub mod urls;

verus! {

/// Classification of an HTTP status code as a success: the 2xx range.
pub open spec fn spec_is_success(code: u16) -> bool {
    200 <= code < 300
}

/// Returns whether `code` lies in the 2xx success range.
pub fn is_success_code(code: u16) -> (r: bool)
    ensures
        r == spec_is_success(code),
{
    200 <= code && code < 300
}

/// What one request attempt produced, as the driver's worker observes
/// the race between the response and the timeout.
pub enum AttemptOutcome {
    /// The response headers arrived in time and the body was drained:
    /// the status, the measured latency in milliseconds, the bytes read,
    /// and the drained body when the script bridge keeps bodies.
    Completed { status: u16, time_ms: u64, bytes_read: usize, body: Option<Vec<u8>> },
    /// The connection or protocol failed before a response arrived.
    TransportFailed,
    /// The per-request timeout fired first.
    TimedOut,
}

/// The record a worker emits for one completed race: a success carries
/// status, latency and both byte counts; a transport failure carries
/// nothing but `timeout == false`; a timeout carries only
/// `timeout == true`.
pub fn stats_for_outcome(
    outcome: AttemptOutcome,
    bytes_written: usize,
    connections: usize,
) -> (r: crate::summary::RequestStats)
    ensures
        match outcome {
            AttemptOutcome::Completed { status, time_ms, bytes_read, body } => r
                == (crate::summary::RequestStats {
                request_time: Some(time_ms),
                status: Some(status),
                bytes_read: Some(bytes_read),
                bytes_written: Some(bytes_written),
                timeout: false,
                body: body,
                connections: connections,
            }),
            AttemptOutcome::TransportFailed => r == (crate::summary::RequestStats {
                request_time: None,
                status: None,
                bytes_read: None,
                bytes_written: None,
                timeout: false,
                body: None,
                connections: connections,
            }),
            AttemptOutcome::TimedOut => r == (crate::summary::RequestStats {
                request_time: None,
                status: None,
                bytes_read: None,
                bytes_written: None,
                timeout: true,
                body: None,
                connections: connections,
            }),
        },
{
    match outcome {
        AttemptOutcome::Completed { status, time_ms, bytes_read, body } => {
            crate::summary::RequestStats {
                request_time: Some(time_ms),
                status: Some(status),
                bytes_read: Some(bytes_read),
                bytes_written: Some(bytes_written),
                timeout: false,
                body,
                connections,
            }
        },
        AttemptOutcome::TransportFailed => crate::summary::RequestStats {
            request_time: None,
            status: None,
            bytes_read: None,
            bytes_written: None,
            timeout: false,
            body: None,
            connections,
        },
        AttemptOutcome::TimedOut => crate::summary::RequestStats {
            request_time: None,
            status: None,
            bytes_read: None,
            bytes_written: None,
            timeout: true,
            body: None,
            connections,
        },
    }
}

/// Run options for the load test, as the command line hands them over.
///
/// Durations are carried as whole milliseconds; the command-line layer
/// parses human-readable durations and converts before constructing this.
#[derive(Clone, Debug)]
pub struct Opt {
    /// Server endpoint to test. With no config present the driver spams
    /// HTTP GET requests to this address.
    pub endpoint: String,
    /// Number of jobs (worker threads) to use in the scheduler.
    pub jobs: Option<usize>,
    /// Number of HTTP connections to use concurrently.
    pub connections: Option<usize>,
    /// Timeout for a request, in milliseconds. A request that takes longer
    /// than this to respond is cancelled.
    pub timeout_ms: u64,
    /// Duration to run the load test for, in milliseconds.
    pub duration_ms: u64,
    /// Path to a configuration file.
    pub config: Option<String>,
    /// Path to an analysis script to run alongside the test.
    pub script: Option<String>,
    /// Ramp up through sequences of concurrent connections: load test at
    /// each level for the full duration, collecting the results.
    pub ramp: Option<Vec<usize>>,
}

/// Relies on num_cpus::get: the number of logical CPUs of this machine,
/// documented to always be at least 1.
#[verifier::external_body]
fn cpu_count() -> (n: usize)
    ensures
        n >= 1,
{
    num_cpus::get()
}

impl Opt {
    /// The list of concurrency levels to run: an explicit `connections`
    /// value wins, then a ramp list, then the default single level of 500.
    pub fn connections(&self) -> (r: Vec<usize>)
        ensures
            self.connections is Some ==> r@ == seq![self.connections->Some_0],
            self.connections is None && self.ramp is Some ==> r@ == self.ramp->Some_0@,
            self.connections is None && self.ramp is None ==> r@ == seq![500usize],
    {
        match (&self.connections, &self.ramp) {
            (Some(c), _) => {
                let r = vec![*c];
                assert(r@ =~= seq![self.connections->Some_0]);
                r
            },
            (None, Some(v)) => {
                let r = v.clone();
                assert(r@ =~= v@);
                r
            },
            (None, None) => {
                let r = vec![500usize];
                assert(r@ =~= seq![500usize]);
                r
            },
        }
    }

    /// The number of runtime worker threads: the explicit request, or one
    /// per logical CPU.
    pub fn jobs(&self) -> (r: usize)
        ensures
            self.jobs is Some ==> r == self.jobs->Some_0,
            self.jobs is None ==> r >= 1,
    {
        match &self.jobs {
            Some(j) => *j,
            None => cpu_count(),
        }
    }
}

} // verus!
