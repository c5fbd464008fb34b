use murk::scripting::{histogram_registration, script_args, ScriptEvents};
use murk::summary::RequestStats;
use murk::Opt;

fn opt_with(connections: Option<usize>, ramp: Option<Vec<usize>>) -> Opt {
    Opt {
        endpoint: String::from("http://x.test"),
        jobs: None,
        connections,
        timeout_ms: 1000,
        duration_ms: 2000,
        config: None,
        script: None,
        ramp,
    }
}

#[test]
fn explicit_connections_win() {
    let opt = opt_with(Some(42), Some(vec![10, 100]));
    assert_eq!(opt.connections(), vec![42]);
}

#[test]
fn ramp_levels_are_kept_in_order() {
    let opt = opt_with(None, Some(vec![10, 100, 1000]));
    assert_eq!(opt.connections(), vec![10, 100, 1000]);
}

#[test]
fn default_concurrency_is_five_hundred() {
    let opt = opt_with(None, None);
    assert_eq!(opt.connections(), vec![500]);
}

#[test]
fn jobs_default_to_at_least_one() {
    let mut opt = opt_with(None, None);
    assert!(opt.jobs() >= 1);
    opt.jobs = Some(7);
    assert_eq!(opt.jobs(), 7);
}

fn stat(timeout: bool, status: Option<u16>, time: Option<u64>, body: Option<Vec<u8>>) -> RequestStats {
    RequestStats {
        request_time: time,
        status,
        bytes_read: None,
        bytes_written: None,
        timeout,
        body,
        connections: 1,
    }
}

#[test]
fn the_bridge_hands_complete_records_to_the_script() {
    let r = script_args(stat(false, Some(200), Some(12), Some(vec![7, 8])));
    assert_eq!(r, Some((200, vec![7, 8], 12)));
}

#[test]
fn the_bridge_substitutes_an_empty_body() {
    let r = script_args(stat(false, Some(503), Some(3), None));
    assert_eq!(r, Some((503, Vec::new(), 3)));
}

#[test]
fn the_bridge_skips_incomplete_records() {
    assert_eq!(script_args(stat(true, Some(200), Some(1), None)), None);
    assert_eq!(script_args(stat(false, None, Some(1), None)), None);
    assert_eq!(script_args(stat(false, Some(200), None, None)), None);
}

#[test]
fn registrations_carry_their_bounds_and_default_accuracy() {
    let reg = histogram_registration(&ScriptEvents::RegisterHistogram {
        name: String::from("lat"),
        min: 1,
        max: 60_000,
        accuracy: None,
    });
    assert_eq!(reg, Some((String::from("lat"), 1, 60_000, 3)));
    let reg2 = histogram_registration(&ScriptEvents::RegisterHistogram {
        name: String::from("lat"),
        min: 5,
        max: 100,
        accuracy: Some(2),
    });
    assert_eq!(reg2, Some((String::from("lat"), 5, 100, 2)));
    assert_eq!(
        histogram_registration(&ScriptEvents::UpdateHistogram {
            name: String::from("lat"),
            value: 9
        }),
        None
    );
}
