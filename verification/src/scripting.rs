use crate::summary::RequestStats;
use vstd::prelude::*;

verus! {

/// Events an analysis script can emit back to the driver through the
/// bridge: registering a histogram it wants kept, or recording a value
/// into one.
#[derive(Clone, Debug)]
pub enum ScriptEvents {
    RegisterHistogram { name: String, min: u64, max: u64, accuracy: Option<u8> },
    UpdateHistogram { name: String, value: u64 },
}

/// The arguments the bridge hands the script for one record, or `None`
/// when the record is skipped: a record qualifies exactly when it did not
/// time out, carries a status, and has a measured latency.
pub open spec fn spec_script_args(stat: RequestStats) -> Option<(u16, Seq<u8>, u64)> {
    if !stat.timeout && stat.status is Some && stat.request_time is Some {
        Some(
            (
                stat.status->Some_0,
                match stat.body {
                    Some(b) => b@,
                    None => Seq::empty(),
                },
                stat.request_time->Some_0,
            ),
        )
    } else {
        None
    }
}

/// Decides whether the bridge hands a record to the script's
/// `handle_request` entry point, and with what arguments: the status, the
/// response body (empty when none was kept), and the latency in
/// milliseconds.
pub fn script_args(stat: RequestStats) -> (r: Option<(u16, Vec<u8>, u64)>)
    ensures
        r is Some <==> spec_script_args(stat) is Some,
        r matches Some(args) ==> spec_script_args(stat) == Some((args.0, args.1@, args.2)),
{
    if stat.timeout {
        return None;
    }
    let code = match stat.status {
        Some(c) => c,
        None => {
            return None;
        },
    };
    let time = match stat.request_time {
        Some(t) => t,
        None => {
            return None;
        },
    };
    let body = match stat.body {
        Some(b) => b,
        None => Vec::new(),
    };
    Some((code, body, time))
}

/// Decides how a script event changes the summary's custom histograms: a
/// registration yields the name and bounds to register, with three
/// significant digits when the script gives no accuracy; an update yields
/// nothing for the summary here, since the core never writes script
/// events back into it.
pub fn histogram_registration(ev: &ScriptEvents) -> (r: Option<(String, u64, u64, u8)>)
    ensures
        match ev {
            ScriptEvents::RegisterHistogram { name, min, max, accuracy } => r matches Some(reg)
                && reg.0@ == name@ && reg.1 == min && reg.2 == max && reg.3 == (match accuracy {
                Some(a) => *a,
                None => 3u8,
            }),
            ScriptEvents::UpdateHistogram { .. } => r is None,
        },
{
    match ev {
        ScriptEvents::RegisterHistogram { name, min, max, accuracy } => {
            let acc = match accuracy {
                Some(a) => *a,
                None => 3u8,
            };
            Some((name.clone(), *min, *max, acc))
        },
        ScriptEvents::UpdateHistogram { .. } => None,
    }
}

} // verus!
