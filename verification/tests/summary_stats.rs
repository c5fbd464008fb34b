use murk::summary::{RequestStats, Summary};
use murk::{stats_for_outcome, AttemptOutcome};

fn timeout_stat() -> RequestStats {
    RequestStats {
        request_time: None,
        status: None,
        bytes_read: None,
        bytes_written: None,
        timeout: true,
        body: None,
        connections: 10,
    }
}

fn transport_stat() -> RequestStats {
    RequestStats {
        request_time: None,
        status: None,
        bytes_read: None,
        bytes_written: None,
        timeout: false,
        body: None,
        connections: 10,
    }
}

fn ok_stat(status: u16, time_ms: u64, bytes_read: usize, bytes_written: usize) -> RequestStats {
    RequestStats {
        request_time: Some(time_ms),
        status: Some(status),
        bytes_read: Some(bytes_read),
        bytes_written: Some(bytes_written),
        timeout: false,
        body: None,
        connections: 1,
    }
}

fn code_count(s: &Summary, code: u16) -> usize {
    s.status_codes
        .iter()
        .find(|(c, _)| *c == code)
        .map(|(_, n)| *n)
        .unwrap_or(0)
}

#[test]
fn timeouts_only_fill_the_timeout_counter() {
    let mut s = Summary::new(100);
    for _ in 0..10 {
        s.add_stat(timeout_stat());
    }
    assert_eq!(s.success, 0);
    assert_eq!(s.failure, 0);
    assert_eq!(s.timeout, 10);
    assert!(s.histogram.inner.is_empty());
    assert!(s.status_codes.is_empty());
}

#[test]
fn statuses_are_classified_and_tallied() {
    let mut s = Summary::new(1000);
    let total = 20;
    for i in 0..total {
        let code = if i % 2 == 0 { 200 } else { 503 };
        s.add_stat(ok_stat(code, 5, 10, 3));
    }
    assert_eq!(s.success + s.failure, total);
    assert_eq!(s.success, 10);
    assert_eq!(s.failure, 10);
    assert_eq!(code_count(&s, 200) + code_count(&s, 503), total);
    assert_eq!(code_count(&s, 200), 10);
    assert_eq!(code_count(&s, 503), 10);
    assert_eq!(s.bytes_read, 200);
    assert_eq!(s.bytes_written, 60);
    assert_eq!(s.histogram.inner.len(), total as u64);
}

#[test]
fn every_record_is_accounted_for_once() {
    let mut s = Summary::new(100);
    let stats = vec![
        ok_stat(200, 5, 1, 1),
        ok_stat(404, 7, 1, 1),
        timeout_stat(),
        transport_stat(),
        ok_stat(200, 9, 1, 1),
        transport_stat(),
    ];
    let total = stats.len();
    let transports = stats
        .iter()
        .filter(|st| !st.timeout && st.status.is_none())
        .count();
    for st in stats {
        s.add_stat(st);
    }
    assert_eq!(s.success + s.failure + s.timeout + transports, total);
    let tally: usize = s.status_codes.iter().map(|(_, n)| *n).sum();
    assert_eq!(s.success + s.failure, tally);
}

#[test]
fn latency_is_clamped_to_the_timeout() {
    let mut s = Summary::new(100);
    s.add_stat(ok_stat(200, 5000, 0, 0));
    assert_eq!(s.histogram.inner.len(), 1);
    assert!(s.histogram.inner.max() <= 100);
    assert!(s.histogram.inner.value_at_quantile(1.0) <= 100);
}

#[test]
fn latency_within_the_timeout_is_recorded_as_measured() {
    let mut s = Summary::new(10_000);
    s.add_stat(ok_stat(200, 42, 0, 0));
    let v = s.histogram.inner.value_at_quantile(0.5);
    assert!(s.histogram.inner.equivalent(v, 42));
}

#[test]
fn default_summary_is_an_identity_on_both_sides() {
    let mut s = Summary::new(1000);
    s.add_stat(ok_stat(200, 5, 10, 20));
    s.add_stat(ok_stat(503, 9, 1, 2));
    s.add_stat(timeout_stat());
    let r = s.combine(Summary::default());
    assert_eq!(r.success, 1);
    assert_eq!(r.failure, 1);
    assert_eq!(r.timeout, 1);
    assert_eq!(r.bytes_read, 11);
    assert_eq!(r.bytes_written, 22);
    assert_eq!(code_count(&r, 200), 1);
    assert_eq!(code_count(&r, 503), 1);
    assert_eq!(r.histogram.inner.len(), 2);

    let mut s2 = Summary::default();
    s2.add_stat(ok_stat(200, 1, 3, 4));
    let r2 = Summary::default().combine(s2);
    assert_eq!(r2.success, 1);
    assert_eq!(r2.bytes_read, 3);
    assert_eq!(r2.bytes_written, 4);
    assert_eq!(code_count(&r2, 200), 1);
    assert_eq!(r2.histogram.inner.len(), 1);
}

#[test]
fn combining_summaries_is_associative_over_tallies_and_histograms() {
    let build = |codes: &[u16]| {
        let mut s = Summary::new(1000);
        for (i, c) in codes.iter().enumerate() {
            s.add_stat(ok_stat(*c, (i as u64 + 1) * 3, 1, 1));
        }
        s
    };
    let left = build(&[200, 404]).combine(build(&[200, 503])).combine(build(&[301]));
    let right = build(&[200, 404]).combine(build(&[200, 503]).combine(build(&[301])));
    assert_eq!(left.success, right.success);
    assert_eq!(left.failure, right.failure);
    assert_eq!(left.timeout, right.timeout);
    assert_eq!(left.bytes_read, right.bytes_read);
    assert_eq!(left.bytes_written, right.bytes_written);
    for code in [200u16, 301, 404, 503] {
        assert_eq!(code_count(&left, code), code_count(&right, code));
    }
    assert_eq!(left.histogram.inner.len(), right.histogram.inner.len());
    assert_eq!(left.histogram.inner.max(), right.histogram.inner.max());
    assert_eq!(
        left.histogram.inner.value_at_quantile(0.5),
        right.histogram.inner.value_at_quantile(0.5)
    );
}

#[test]
fn combine_merges_disjoint_and_shared_custom_histograms() {
    let mut a = Summary::new(1000);
    assert!(a.register_custom_histogram(String::from("shared"), 1, 1000, 3));
    assert!(a.register_custom_histogram(String::from("only-a"), 1, 100, 2));
    let mut b = Summary::new(1000);
    assert!(b.register_custom_histogram(String::from("shared"), 1, 1000, 3));
    assert!(b.register_custom_histogram(String::from("only-b"), 1, 50, 1));
    let r = a.combine(b);
    let names: Vec<&str> = r
        .custom_histograms
        .iter()
        .map(|(n, _)| n.as_str())
        .collect();
    assert_eq!(names, vec!["shared", "only-a", "only-b"]);
}

#[test]
fn register_custom_histogram_replaces_by_name() {
    let mut s = Summary::new(1000);
    assert!(s.register_custom_histogram(String::from("h"), 1, 1000, 3));
    assert!(s.register_custom_histogram(String::from("h"), 1, 2000, 3));
    assert_eq!(s.custom_histograms.len(), 1);
    assert_eq!(s.custom_histograms[0].1.inner.high(), 2000);
}

#[test]
fn register_custom_histogram_rejects_bad_bounds() {
    let mut s = Summary::new(1000);
    assert!(!s.register_custom_histogram(String::from("h"), 0, 1000, 3));
    assert!(!s.register_custom_histogram(String::from("h"), 1, 1000, 9));
    assert!(s.custom_histograms.is_empty());
}

#[test]
fn worker_records_carry_the_outcome() {
    let ok = stats_for_outcome(
        AttemptOutcome::Completed {
            status: 200,
            time_ms: 12,
            bytes_read: 34,
            body: Some(vec![1, 2, 3]),
        },
        56,
        500,
    );
    assert_eq!(ok.status, Some(200));
    assert_eq!(ok.request_time, Some(12));
    assert_eq!(ok.bytes_read, Some(34));
    assert_eq!(ok.bytes_written, Some(56));
    assert!(!ok.timeout);
    assert_eq!(ok.body, Some(vec![1, 2, 3]));
    assert_eq!(ok.connections, 500);

    let failed = stats_for_outcome(AttemptOutcome::TransportFailed, 56, 500);
    assert!(!failed.timeout);
    assert_eq!(failed.status, None);
    assert_eq!(failed.request_time, None);
    assert_eq!(failed.bytes_read, None);
    assert_eq!(failed.bytes_written, None);

    let timed = stats_for_outcome(AttemptOutcome::TimedOut, 56, 500);
    assert!(timed.timeout);
    assert_eq!(timed.status, None);
    assert_eq!(timed.request_time, None);
    assert_eq!(timed.bytes_read, None);
    assert_eq!(timed.bytes_written, None);
}
