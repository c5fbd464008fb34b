use crate::hist::{
    hist_add, hist_auto, hist_clone, hist_config, hist_high, hist_max, hist_new_auto,
    hist_new_with_bounds, hist_new_with_max, hist_record, hist_values, LatencyHistogram,
};
use crate::{is_success_code, spec_is_success};
use vstd::multiset::Multiset;
use vstd::pervasive::unreached;
use vstd::pervasive::VecAdditionalExecFns;
use vstd::prelude::*;

verus! {

/// The outcome of one request attempt, as a worker reports it: latency in
/// milliseconds when the response arrived in time, the HTTP status when
/// one was received, the bytes drained and sent, whether the attempt
/// timed out, the response body when the script bridge keeps it, and the
/// concurrency level the attempt ran under.
#[derive(Clone, Debug)]
pub struct RequestStats {
    pub request_time: Option<u64>,
    pub status: Option<u16>,
    pub bytes_read: Option<usize>,
    pub bytes_written: Option<usize>,
    pub timeout: bool,
    pub body: Option<Vec<u8>>,
    pub connections: usize,
}

/// Aggregated statistics of one ramp level: outcome counters, byte
/// totals, a tally per status code, the latency histogram, and the
/// histograms an analysis script registered.
pub struct Summary {
    pub success: usize,
    pub failure: usize,
    pub timeout: usize,
    pub bytes_read: usize,
    pub bytes_written: usize,
    pub status_codes: Vec<(u16, usize)>,
    pub histogram: LatencyHistogram,
    pub custom_histograms: Vec<(String, LatencyHistogram)>,
}

/// The mathematical content of a summary.
pub ghost struct SummaryModel {
    pub success: nat,
    pub failure: nat,
    pub timeout: nat,
    pub bytes_read: nat,
    pub bytes_written: nat,
    pub status_codes: Map<u16, nat>,
    pub histogram: Multiset<u64>,
    pub custom_histograms: Map<Seq<char>, Multiset<u64>>,
}

/// The tally map a status-code list denotes; a later entry for the same
/// code would win, so well-formed summaries keep the codes unique.
pub open spec fn codes_map(s: Seq<(u16, usize)>) -> Map<u16, nat>
    decreases s.len(),
{
    if s.len() == 0 {
        Map::empty()
    } else {
        codes_map(s.drop_last()).insert(s.last().0, s.last().1 as nat)
    }
}

/// The recorded values of each named custom histogram.
pub open spec fn customs_map(s: Seq<(String, LatencyHistogram)>) -> Map<Seq<char>, Multiset<u64>>
    decreases s.len(),
{
    if s.len() == 0 {
        Map::empty()
    } else {
        customs_map(s.drop_last()).insert(s.last().0@, hist_values(s.last().1))
    }
}

/// No status code appears twice.
pub open spec fn codes_unique(s: Seq<(u16, usize)>) -> bool {
    forall|i: int, j: int| 0 <= i < j < s.len() ==> (#[trigger] s[i]).0 != (#[trigger] s[j]).0
}

/// No custom histogram name appears twice.
pub open spec fn customs_unique(s: Seq<(String, LatencyHistogram)>) -> bool {
    forall|i: int, j: int| 0 <= i < j < s.len() ==> (#[trigger] s[i]).0@ != (#[trigger] s[j]).0@
}

/// The tally a code currently has, zero when the code is new.
pub open spec fn spec_code_count(m: Map<u16, nat>, code: u16) -> nat {
    if m.dom().contains(code) {
        m[code]
    } else {
        0
    }
}

impl View for Summary {
    type V = SummaryModel;

    open spec fn view(&self) -> SummaryModel {
        SummaryModel {
            success: self.success as nat,
            failure: self.failure as nat,
            timeout: self.timeout as nat,
            bytes_read: self.bytes_read as nat,
            bytes_written: self.bytes_written as nat,
            status_codes: codes_map(self.status_codes@),
            histogram: hist_values(self.histogram),
            custom_histograms: customs_map(self.custom_histograms@),
        }
    }
}

impl Summary {
    /// Well-formedness: tallies and custom histograms are keyed uniquely,
    /// and the latency histogram holds no value beyond its own maximum,
    /// which equals the configured timeout.
    pub open spec fn wf(&self) -> bool {
        &&& codes_unique(self.status_codes@)
        &&& customs_unique(self.custom_histograms@)
        &&& forall|v: u64|
            #[trigger] hist_values(self.histogram).count(v) > 0 ==> v <= hist_max(self.histogram)
    }
}

/// The summary with nothing recorded.
pub open spec fn empty_summary() -> SummaryModel {
    SummaryModel {
        success: 0,
        failure: 0,
        timeout: 0,
        bytes_read: 0,
        bytes_written: 0,
        status_codes: Map::empty(),
        histogram: Multiset::empty(),
        custom_histograms: Map::empty(),
    }
}

/// One record folded into a summary: byte counts always accumulate; a
/// timeout bumps the timeout counter; otherwise a present status is
/// tallied and classified (2xx is a success), and a present latency is
/// recorded, clamped to `cap`, the histogram's maximum. A transport
/// failure (no timeout, no status) moves no counter.
pub open spec fn spec_add_stat(m: SummaryModel, stat: RequestStats, cap: u64) -> SummaryModel {
    let bytes_read = m.bytes_read + (match stat.bytes_read {
        Some(b) => b as nat,
        None => 0,
    });
    let bytes_written = m.bytes_written + (match stat.bytes_written {
        Some(b) => b as nat,
        None => 0,
    });
    if stat.timeout {
        SummaryModel {
            timeout: m.timeout + 1,
            bytes_read,
            bytes_written,
            ..m
        }
    } else {
        match stat.status {
            Some(code) => {
                let success = if spec_is_success(code) {
                    m.success + 1
                } else {
                    m.success
                };
                let failure = if spec_is_success(code) {
                    m.failure
                } else {
                    m.failure + 1
                };
                let status_codes = m.status_codes.insert(
                    code,
                    spec_code_count(m.status_codes, code) + 1,
                );
                let histogram = match stat.request_time {
                    Some(t) => m.histogram.insert(if t > cap {
                        cap
                    } else {
                        t
                    }),
                    None => m.histogram,
                };
                SummaryModel { success, failure, status_codes, histogram, bytes_read, bytes_written, ..m }
            },
            None => SummaryModel { bytes_read, bytes_written, ..m },
        }
    }
}

impl Summary {
    /// A summary for one ramp level: everything zero, and a latency
    /// histogram whose maximum recordable value is the configured
    /// per-request timeout in milliseconds (the histogram needs at least
    /// two).
    pub fn new(timeout_ms: u64) -> (r: Summary)
        requires
            timeout_ms >= 2,
        ensures
            r@ == empty_summary(),
            r.wf(),
            hist_config(r.histogram) == (1u64, timeout_ms, 3u8, false),
    {
        let histogram = match hist_new_with_max(timeout_ms) {
            Some(h) => h,
            None => unreached(),
        };
        let r = Summary {
            success: 0,
            failure: 0,
            timeout: 0,
            bytes_read: 0,
            bytes_written: 0,
            status_codes: Vec::new(),
            histogram,
            custom_histograms: Vec::new(),
        };
        proof {
            assert(r@.status_codes =~= Map::<u16, nat>::empty());
            assert(r@.custom_histograms =~= Map::<Seq<char>, Multiset<u64>>::empty());
        }
        r
    }
}

impl Default for Summary {
    /// The identity element of summary addition: everything zero, with an
    /// auto-resizing latency histogram so it can absorb any other summary.
    fn default() -> (r: Summary)
        ensures
            r@ == empty_summary(),
            r.wf(),
            hist_auto(r.histogram),
            hist_values(r.histogram) == Multiset::<u64>::empty(),
    {
        let r = Summary {
            success: 0,
            failure: 0,
            timeout: 0,
            bytes_read: 0,
            bytes_written: 0,
            status_codes: Vec::new(),
            histogram: hist_new_auto(),
            custom_histograms: Vec::new(),
        };
        proof {
            assert(r@.status_codes =~= Map::<u16, nat>::empty());
            assert(r@.custom_histograms =~= Map::<Seq<char>, Multiset<u64>>::empty());
        }
        r
    }
}

} // verus!

verus! {

/// Each entry of a uniquely-keyed tally list is in the map with its own
/// count.
proof fn lemma_codes_map_index(s: Seq<(u16, usize)>, i: int)
    requires
        codes_unique(s),
        0 <= i < s.len(),
    ensures
        codes_map(s).dom().contains(s[i].0),
        codes_map(s)[s[i].0] == s[i].1 as nat,
    decreases s.len(),
{
    if i == s.len() - 1 {
    } else {
        assert(codes_unique(s.drop_last()));
        assert(s.drop_last()[i] == s[i]);
        lemma_codes_map_index(s.drop_last(), i);
        assert(s[i].0 != s.last().0);
    }
}

/// A code no entry carries is not in the map.
proof fn lemma_codes_map_absent(s: Seq<(u16, usize)>, code: u16)
    requires
        forall|i: int| 0 <= i < s.len() ==> (#[trigger] s[i]).0 != code,
    ensures
        !codes_map(s).dom().contains(code),
    decreases s.len(),
{
    if s.len() > 0 {
        assert(forall|i: int|
            0 <= i < s.drop_last().len() ==> (#[trigger] s.drop_last()[i]).0 != code);
        lemma_codes_map_absent(s.drop_last(), code);
        assert(s.last().0 != code);
    }
}

/// Updating one entry's count updates exactly that code in the map.
proof fn lemma_codes_map_update(s: Seq<(u16, usize)>, i: int, v: usize)
    requires
        codes_unique(s),
        0 <= i < s.len(),
    ensures
        codes_map(s.update(i, (s[i].0, v))) == codes_map(s).insert(s[i].0, v as nat),
    decreases s.len(),
{
    let s2 = s.update(i, (s[i].0, v));
    if i == s.len() - 1 {
        assert(s2.drop_last() =~= s.drop_last());
        assert(s2.last() == (s[i].0, v));
        assert(codes_map(s.drop_last()).insert(s[i].0, v as nat) =~= codes_map(
            s.drop_last(),
        ).insert(s.last().0, s.last().1 as nat).insert(s[i].0, v as nat));
    } else {
        assert(s2.drop_last() =~= s.drop_last().update(i, (s[i].0, v)));
        assert(s2.last() == s.last());
        assert(codes_unique(s.drop_last()));
        assert(s.drop_last()[i] == s[i]);
        lemma_codes_map_update(s.drop_last(), i, v);
        assert(s[i].0 != s.last().0);
        assert(codes_map(s.drop_last()).insert(s[i].0, v as nat).insert(
            s.last().0,
            s.last().1 as nat,
        ) =~= codes_map(s.drop_last()).insert(s.last().0, s.last().1 as nat).insert(
            s[i].0,
            v as nat,
        ));
    }
}

/// The tally map of every list is finite.
pub(crate) proof fn lemma_codes_map_finite(s: Seq<(u16, usize)>)
    ensures
        codes_map(s).dom().finite(),
    decreases s.len(),
{
    if s.len() > 0 {
        lemma_codes_map_finite(s.drop_last());
    }
}

/// Bumps the tally of `code` by `add`, keeping the list uniquely keyed.
fn bump_code_by(codes: &mut Vec<(u16, usize)>, code: u16, add: usize)
    requires
        codes_unique(old(codes)@),
        spec_code_count(codes_map(old(codes)@), code) + add <= usize::MAX,
    ensures
        codes_unique(final(codes)@),
        codes_map(final(codes)@) == codes_map(old(codes)@).insert(
            code,
            (spec_code_count(codes_map(old(codes)@), code) + add) as nat,
        ),
{
    let n = codes.len();
    let mut i: usize = 0;
    while i < n
        invariant
            i <= n,
            codes@ == old(codes)@,
            forall|j: int| 0 <= j < i ==> (#[trigger] codes@[j]).0 != code,
        decreases n - i,
    {
        if codes[i].0 == code {
            proof {
                lemma_codes_map_index(codes@, i as int);
            }
            let v = codes[i].1;
            codes.set(i, (code, v + add));
            proof {
                lemma_codes_map_update(old(codes)@, i as int, (v + add) as usize);
                assert(codes_unique(codes@));
            }
            return ;
        }
        i = i + 1;
    }
    proof {
        lemma_codes_map_absent(codes@, code);
    }
    codes.push((code, add));
    proof {
        assert(codes@.drop_last() =~= old(codes)@);
        assert(codes_unique(codes@));
    }
}

impl Summary {
    /// Folds one record into the summary, exactly as `spec_add_stat`
    /// describes: a latency is clamped to the histogram's maximum before
    /// it is recorded, so the histogram never receives a value above the
    /// configured timeout.
    pub fn add_stat(&mut self, stat: RequestStats)
        requires
            old(self).wf(),
            old(self).success < usize::MAX,
            old(self).failure < usize::MAX,
            old(self).timeout < usize::MAX,
            old(self).bytes_read + (match stat.bytes_read {
                Some(b) => b as int,
                None => 0,
            }) <= usize::MAX,
            old(self).bytes_written + (match stat.bytes_written {
                Some(b) => b as int,
                None => 0,
            }) <= usize::MAX,
            stat.status matches Some(c) ==> spec_code_count(old(self)@.status_codes, c)
                < usize::MAX,
        ensures
            final(self)@ == spec_add_stat(old(self)@, stat, hist_max(old(self).histogram)),
            final(self).wf(),
            hist_config(final(self).histogram) == hist_config(old(self).histogram),
            final(self).custom_histograms@ == old(self).custom_histograms@,
    {
        let ghost cap = hist_max(old(self).histogram);
        match &stat.bytes_read {
            Some(b) => {
                self.bytes_read = self.bytes_read + *b;
            },
            None => (),
        }
        match &stat.bytes_written {
            Some(b) => {
                self.bytes_written = self.bytes_written + *b;
            },
            None => (),
        }
        if stat.timeout {
            self.timeout = self.timeout + 1;
        } else {
            match &stat.status {
                Some(code) => {
                    if is_success_code(*code) {
                        self.success = self.success + 1;
                    } else {
                        self.failure = self.failure + 1;
                    }
                    bump_code_by(&mut self.status_codes, *code, 1);
                    match &stat.request_time {
                        Some(t) => {
                            let cap_now = hist_high(&self.histogram);
                            let v = if *t > cap_now {
                                cap_now
                            } else {
                                *t
                            };
                            let recorded = hist_record(&mut self.histogram, v);
                            proof {
                                assert(recorded);
                            }
                        },
                        None => (),
                    }
                },
                None => (),
            }
        }
        proof {
            assert(final(self)@ == spec_add_stat(old(self)@, stat, cap));
        }
    }
}

} // verus!

verus! {

/// A record sequence folded into a summary, in order.
pub open spec fn fold_stats(m: SummaryModel, stats: Seq<RequestStats>, cap: u64) -> SummaryModel
    decreases stats.len(),
{
    if stats.len() == 0 {
        m
    } else {
        spec_add_stat(fold_stats(m, stats.drop_last(), cap), stats.last(), cap)
    }
}

/// Whether a record reports a transport failure: no timeout, but no
/// status either.
pub open spec fn is_transport_failure(stat: RequestStats) -> bool {
    !stat.timeout && stat.status is None
}

/// How many records of a sequence report a transport failure.
pub open spec fn transport_failures(stats: Seq<RequestStats>) -> nat
    decreases stats.len(),
{
    if stats.len() == 0 {
        0
    } else {
        transport_failures(stats.drop_last()) + (if is_transport_failure(stats.last()) {
            1nat
        } else {
            0nat
        })
    }
}

/// The sum of all tallies of a status-code map.
pub open spec fn map_total(m: Map<u16, nat>) -> nat
    decreases m.dom().len(),
    when m.dom().finite()
{
    if m.dom().finite() && m.dom().len() > 0 {
        let k = m.dom().choose();
        m[k] + map_total(m.remove(k))
    } else {
        0
    }
}

/// Removing a key takes exactly its tally out of the total.
proof fn lemma_map_total_remove(m: Map<u16, nat>, k: u16)
    requires
        m.dom().finite(),
        m.dom().contains(k),
    ensures
        map_total(m) == m[k] + map_total(m.remove(k)),
    decreases m.dom().len(),
{
    broadcast use vstd::set_lib::group_set_properties;

    assert(m.dom().len() > 0);
    let k0 = m.dom().choose();
    if k0 == k {
    } else {
        lemma_map_total_remove(m.remove(k0), k);
        lemma_map_total_remove(m.remove(k), k0);
        assert(m.remove(k0).remove(k) =~= m.remove(k).remove(k0));
    }
}

/// Inserting a key replaces its tally in the total.
proof fn lemma_map_total_insert(m: Map<u16, nat>, k: u16, v: nat)
    requires
        m.dom().finite(),
    ensures
        map_total(m.insert(k, v)) == map_total(m) - spec_code_count(m, k) + v,
{
    lemma_map_total_remove(m.insert(k, v), k);
    assert(m.insert(k, v).remove(k) =~= m.remove(k));
    if m.dom().contains(k) {
        lemma_map_total_remove(m, k);
    } else {
        assert(m.remove(k) =~= m);
    }
}

/// One folding step moves the counters and the tally total together:
/// exactly one of the four outcome classes grows by one, and the tally
/// total grows exactly when a status was counted.
proof fn lemma_add_stat_conservation(m: SummaryModel, stat: RequestStats, cap: u64)
    requires
        m.status_codes.dom().finite(),
    ensures
        spec_add_stat(m, stat, cap).status_codes.dom().finite(),
        spec_add_stat(m, stat, cap).success + spec_add_stat(m, stat, cap).failure + spec_add_stat(
            m,
            stat,
            cap,
        ).timeout + (if is_transport_failure(stat) {
            1nat
        } else {
            0nat
        }) == m.success + m.failure + m.timeout + 1,
        map_total(spec_add_stat(m, stat, cap).status_codes) - map_total(m.status_codes)
            == spec_add_stat(m, stat, cap).success + spec_add_stat(m, stat, cap).failure
            - m.success - m.failure,
{
    if !stat.timeout {
        match stat.status {
            Some(code) => {
                lemma_map_total_insert(
                    m.status_codes,
                    code,
                    spec_code_count(m.status_codes, code) + 1,
                );
            },
            None => (),
        }
    }
}

/// Law: folding any record sequence into the empty summary accounts for
/// every record exactly once. Successes, failures, timeouts and transport
/// failures add up to the number of records, and successes plus failures
/// equal the sum of the status-code tallies.
pub proof fn lemma_fold_conservation(stats: Seq<RequestStats>, cap: u64)
    ensures
        fold_stats(empty_summary(), stats, cap).success + fold_stats(
            empty_summary(),
            stats,
            cap,
        ).failure + fold_stats(empty_summary(), stats, cap).timeout + transport_failures(stats)
            == stats.len(),
        fold_stats(empty_summary(), stats, cap).success + fold_stats(
            empty_summary(),
            stats,
            cap,
        ).failure == map_total(fold_stats(empty_summary(), stats, cap).status_codes),
    decreases stats.len(),
{
    lemma_fold_finite(empty_summary(), stats, cap);
    if stats.len() == 0 {
    } else {
        lemma_fold_conservation(stats.drop_last(), cap);
        lemma_fold_finite(empty_summary(), stats.drop_last(), cap);
        lemma_add_stat_conservation(
            fold_stats(empty_summary(), stats.drop_last(), cap),
            stats.last(),
            cap,
        );
    }
}

/// A fold keeps the tally map finite.
proof fn lemma_fold_finite(m: SummaryModel, stats: Seq<RequestStats>, cap: u64)
    requires
        m.status_codes.dom().finite(),
    ensures
        fold_stats(m, stats, cap).status_codes.dom().finite(),
    decreases stats.len(),
{
    if stats.len() > 0 {
        lemma_fold_finite(m, stats.drop_last(), cap);
        lemma_add_stat_conservation(fold_stats(m, stats.drop_last(), cap), stats.last(), cap);
    }
}

} // verus!

verus! {

/// Two status-code tallies merged: the union of the codes, tallies
/// summed.
pub open spec fn merge_counts(a: Map<u16, nat>, b: Map<u16, nat>) -> Map<u16, nat> {
    Map::new(
        |k: u16| a.dom().contains(k) || b.dom().contains(k),
        |k: u16| spec_code_count(a, k) + spec_code_count(b, k),
    )
}

/// The recorded values a named custom histogram holds, empty when the
/// name is unknown.
pub open spec fn spec_custom_values(m: Map<Seq<char>, Multiset<u64>>, name: Seq<char>) -> Multiset<
    u64,
> {
    if m.dom().contains(name) {
        m[name]
    } else {
        Multiset::empty()
    }
}

/// Two custom histogram collections merged: the union of the names, the
/// recorded values of shared names merged.
pub open spec fn merge_customs(
    a: Map<Seq<char>, Multiset<u64>>,
    b: Map<Seq<char>, Multiset<u64>>,
) -> Map<Seq<char>, Multiset<u64>> {
    Map::new(
        |k: Seq<char>| a.dom().contains(k) || b.dom().contains(k),
        |k: Seq<char>| spec_custom_values(a, k).add(spec_custom_values(b, k)),
    )
}

/// Two summaries added: counters and byte totals summed, status-code
/// tallies merged, latency values merged, custom histograms merged by
/// name.
pub open spec fn spec_add_summary(a: SummaryModel, b: SummaryModel) -> SummaryModel {
    SummaryModel {
        success: a.success + b.success,
        failure: a.failure + b.failure,
        timeout: a.timeout + b.timeout,
        bytes_read: a.bytes_read + b.bytes_read,
        bytes_written: a.bytes_written + b.bytes_written,
        status_codes: merge_counts(a.status_codes, b.status_codes),
        histogram: a.histogram.add(b.histogram),
        custom_histograms: merge_customs(a.custom_histograms, b.custom_histograms),
    }
}

/// Law: the empty summary is the identity of summary addition, on both
/// sides.
pub proof fn lemma_summary_add_identity(s: SummaryModel)
    ensures
        spec_add_summary(empty_summary(), s) == s,
        spec_add_summary(s, empty_summary()) == s,
{
    assert(merge_counts(empty_summary().status_codes, s.status_codes) =~= s.status_codes);
    assert(merge_counts(s.status_codes, empty_summary().status_codes) =~= s.status_codes);
    assert(Multiset::<u64>::empty().add(s.histogram) =~= s.histogram);
    assert(s.histogram.add(Multiset::<u64>::empty()) =~= s.histogram);
    assert(merge_customs(empty_summary().custom_histograms, s.custom_histograms)
        =~~= s.custom_histograms);
    assert(merge_customs(s.custom_histograms, empty_summary().custom_histograms)
        =~~= s.custom_histograms);
}

/// Law: summary addition is associative, status-code tallies and
/// histogram merges included.
pub proof fn lemma_summary_add_assoc(a: SummaryModel, b: SummaryModel, c: SummaryModel)
    ensures
        spec_add_summary(spec_add_summary(a, b), c) == spec_add_summary(a, spec_add_summary(b, c)),
{
    assert(merge_counts(merge_counts(a.status_codes, b.status_codes), c.status_codes)
        =~= merge_counts(a.status_codes, merge_counts(b.status_codes, c.status_codes)));
    assert(a.histogram.add(b.histogram).add(c.histogram) =~= a.histogram.add(
        b.histogram.add(c.histogram),
    ));
    assert(merge_customs(merge_customs(a.custom_histograms, b.custom_histograms), c.custom_histograms)
        =~~= merge_customs(a.custom_histograms, merge_customs(b.custom_histograms, c.custom_histograms)));
}

/// Law: summary addition is commutative.
pub proof fn lemma_summary_add_commutes(a: SummaryModel, b: SummaryModel)
    ensures
        spec_add_summary(a, b) == spec_add_summary(b, a),
{
    assert(merge_counts(a.status_codes, b.status_codes) =~= merge_counts(
        b.status_codes,
        a.status_codes,
    ));
    assert(a.histogram.add(b.histogram) =~= b.histogram.add(a.histogram));
    assert(merge_customs(a.custom_histograms, b.custom_histograms) =~~= merge_customs(
        b.custom_histograms,
        a.custom_histograms,
    ));
}

} // verus!

verus! {

/// Each entry of a uniquely-named custom list is in the map with its own
/// values.
proof fn lemma_customs_map_index(s: Seq<(String, LatencyHistogram)>, i: int)
    requires
        customs_unique(s),
        0 <= i < s.len(),
    ensures
        customs_map(s).dom().contains(s[i].0@),
        customs_map(s)[s[i].0@] == hist_values(s[i].1),
    decreases s.len(),
{
    if i == s.len() - 1 {
    } else {
        assert(customs_unique(s.drop_last()));
        assert(s.drop_last()[i] == s[i]);
        lemma_customs_map_index(s.drop_last(), i);
        assert(s[i].0@ != s.last().0@);
    }
}

/// A name no entry carries is not in the map.
proof fn lemma_customs_map_absent(s: Seq<(String, LatencyHistogram)>, name: Seq<char>)
    requires
        forall|i: int| 0 <= i < s.len() ==> (#[trigger] s[i]).0@ != name,
    ensures
        !customs_map(s).dom().contains(name),
    decreases s.len(),
{
    if s.len() > 0 {
        assert(forall|i: int|
            0 <= i < s.drop_last().len() ==> (#[trigger] s.drop_last()[i]).0@ != name);
        lemma_customs_map_absent(s.drop_last(), name);
        assert(s.last().0@ != name);
    }
}

/// Updating one entry's histogram updates exactly that name in the map.
proof fn lemma_customs_map_update(
    s: Seq<(String, LatencyHistogram)>,
    i: int,
    e: (String, LatencyHistogram),
)
    requires
        customs_unique(s),
        0 <= i < s.len(),
        e.0@ == s[i].0@,
    ensures
        customs_map(s.update(i, e)) == customs_map(s).insert(s[i].0@, hist_values(e.1)),
    decreases s.len(),
{
    let s2 = s.update(i, e);
    if i == s.len() - 1 {
        assert(s2.drop_last() =~= s.drop_last());
        assert(s2.last() == e);
        assert(customs_map(s.drop_last()).insert(s[i].0@, hist_values(e.1)) =~= customs_map(
            s.drop_last(),
        ).insert(s.last().0@, hist_values(s.last().1)).insert(s[i].0@, hist_values(e.1)));
    } else {
        assert(s2.drop_last() =~= s.drop_last().update(i, e));
        assert(s2.last() == s.last());
        assert(customs_unique(s.drop_last()));
        assert(s.drop_last()[i] == s[i]);
        lemma_customs_map_update(s.drop_last(), i, e);
        assert(s[i].0@ != s.last().0@);
        assert(customs_map(s.drop_last()).insert(s[i].0@, hist_values(e.1)).insert(
            s.last().0@,
            hist_values(s.last().1),
        ) =~= customs_map(s.drop_last()).insert(s.last().0@, hist_values(s.last().1)).insert(
            s[i].0@,
            hist_values(e.1),
        ));
    }
}

impl Summary {
    /// Whether `other` can be absorbed into this summary without loss:
    /// the latency histograms were configured alike (or the other's is
    /// empty), custom histograms sharing a name were configured alike,
    /// and no counter or tally overflows the machine's integers.
    pub open spec fn can_absorb(&self, other: &Summary) -> bool {
        &&& (hist_config(self.histogram) == hist_config(other.histogram) || hist_values(
            other.histogram,
        ) == Multiset::<u64>::empty())
        &&& (forall|i: int, j: int|
            0 <= i < self.custom_histograms@.len() && 0 <= j < other.custom_histograms@.len() && (
            #[trigger] self.custom_histograms@[i]).0@ == (#[trigger] other.custom_histograms@[j]).0@
                ==> hist_config(self.custom_histograms@[i].1) == hist_config(
                other.custom_histograms@[j].1,
            ))
        &&& self.success + other.success <= usize::MAX
        &&& self.failure + other.failure <= usize::MAX
        &&& self.timeout + other.timeout <= usize::MAX
        &&& self.bytes_read + other.bytes_read <= usize::MAX
        &&& self.bytes_written + other.bytes_written <= usize::MAX
        &&& (forall|k: u16|
            #[trigger] spec_code_count(self@.status_codes, k) + spec_code_count(
                other@.status_codes,
                k,
            ) <= usize::MAX)
    }

    /// Adds another summary into this one and returns the result:
    /// counters and byte totals are summed, status-code tallies merged,
    /// the latency histograms merged, and custom histograms merged by
    /// name (a name only the other summary knows is carried over).
    pub fn combine(self, other: Summary) -> (r: Summary)
        requires
            self.wf(),
            other.wf(),
            self.can_absorb(&other),
        ensures
            r@ == spec_add_summary(self@, other@),
            r.wf(),
            hist_config(r.histogram) == hist_config(self.histogram),
    {
        let ghost av = self@;
        let ghost bv = other@;
        let ghost sc0 = self.custom_histograms@;
        let Summary {
            success,
            failure,
            timeout,
            bytes_read,
            bytes_written,
            status_codes,
            histogram,
            custom_histograms,
        } = self;
        let success = success + other.success;
        let failure = failure + other.failure;
        let timeout = timeout + other.timeout;
        let bytes_read = bytes_read + other.bytes_read;
        let bytes_written = bytes_written + other.bytes_written;
        let mut histogram = histogram;
        let merged = hist_add(&mut histogram, &other.histogram);
        proof {
            assert(merged);
        }
        let mut status_codes = status_codes;
        let ghost ocodes = other.status_codes@;
        let n = other.status_codes.len();
        let mut i: usize = 0;
        proof {
            assert(ocodes.take(0) =~= Seq::<(u16, usize)>::empty());
            assert(codes_map(status_codes@) =~= merge_counts(
                av.status_codes,
                codes_map(ocodes.take(0)),
            ));
        }
        while i < n
            invariant
                i <= n,
                codes_unique(status_codes@),
                codes_map(status_codes@) == merge_counts(
                    av.status_codes,
                    codes_map(ocodes.take(i as int)),
                ),
            decreases n - i,
        {
            let code = other.status_codes[i].0;
            let add = other.status_codes[i].1;
            proof {
                lemma_codes_map_index(ocodes, i as int);
                assert(forall|j: int| 0 <= j < i ==> (#[trigger] ocodes[j]).0 != code);
                lemma_codes_map_absent(ocodes.take(i as int), code);
                assert(spec_code_count(codes_map(status_codes@), code) == spec_code_count(
                    av.status_codes,
                    code,
                ));
                assert(spec_code_count(bv.status_codes, code) == add as nat);
            }
            bump_code_by(&mut status_codes, code, add);
            proof {
                assert(ocodes.take(i + 1).drop_last() =~= ocodes.take(i as int));
                assert(ocodes.take(i + 1).last() == ocodes[i as int]);
                assert(codes_map(status_codes@) =~= merge_counts(
                    av.status_codes,
                    codes_map(ocodes.take(i + 1)),
                ));
            }
            i = i + 1;
        }
        proof {
            assert(ocodes.take(n as int) =~= ocodes);
        }
        let mut customs = custom_histograms;
        let ghost len0 = sc0.len();
        let ghost oc = other.custom_histograms@;
        let m = other.custom_histograms.len();
        let mut j: usize = 0;
        proof {
            assert(oc.take(0) =~= Seq::<(String, LatencyHistogram)>::empty());
            assert(customs_map(customs@) =~~= merge_customs(
                av.custom_histograms,
                customs_map(oc.take(0)),
            ));
        }
        while j < m
            invariant
                j <= m,
                customs_unique(customs@),
                customs@.len() >= len0,
                customs_map(customs@) == merge_customs(
                    av.custom_histograms,
                    customs_map(oc.take(j as int)),
                ),
                forall|t: int|
                    0 <= t < len0 ==> (#[trigger] customs@[t]).0@ == sc0[t].0@ && hist_config(
                        customs@[t].1,
                    ) == hist_config(sc0[t].1),
                forall|t: int|
                    len0 <= t < customs@.len() ==> exists|j2: int|
                        0 <= j2 < j && (#[trigger] customs@[t]).0@ == oc[j2].0@,
            decreases m - j,
        {
            let name = &other.custom_histograms[j].0;
            proof {
                lemma_customs_map_index(oc, j as int);
                assert(forall|t: int| 0 <= t < j ==> (#[trigger] oc[t]).0@ != name@);
                lemma_customs_map_absent(oc.take(j as int), name@);
            }
            let mut found: usize = 0;
            let mut have: bool = false;
            let alen = customs.len();
            let mut t: usize = 0;
            while t < alen
                invariant
                    t <= alen,
                    alen == customs@.len(),
                    !have ==> forall|t2: int|
                        0 <= t2 < t ==> (#[trigger] customs@[t2]).0@ != name@,
                    have ==> found < alen && customs@[found as int].0@ == name@,
                decreases alen - t,
            {
                if !have && customs[t].0 == *name {
                    found = t;
                    have = true;
                }
                t = t + 1;
            }
            let ghost s_before = customs@;
            if have {
                proof {
                    if found >= len0 {
                        let j2 = choose|j2: int|
                            0 <= j2 < j && customs@[found as int].0@ == oc[j2].0@;
                        assert(oc[j2].0@ == oc[j as int].0@);
                        assert(false);
                    }
                    assert(hist_config(s_before[found as int].1) == hist_config(
                        sc0[found as int].1,
                    ));
                    assert(hist_config(sc0[found as int].1) == hist_config(oc[j as int].1));
                    lemma_customs_map_index(s_before, found as int);
                }
                let mut tmp: (String, LatencyHistogram) = (String::new(), hist_new_auto());
                customs.set_and_swap(found, &mut tmp);
                let ok = hist_add(&mut tmp.1, &other.custom_histograms[j].1);
                proof {
                    assert(ok);
                }
                let ghost e = tmp;
                customs.set_and_swap(found, &mut tmp);
                proof {
                    assert(customs@ =~= s_before.update(found as int, e));
                    assert(e.0@ == s_before[found as int].0@);
                    lemma_customs_map_update(s_before, found as int, e);
                }
            } else {
                proof {
                    lemma_customs_map_absent(s_before, name@);
                }
                customs.push((name.clone(), hist_clone(&other.custom_histograms[j].1)));
                proof {
                    assert(customs@.drop_last() =~= s_before);
                }
            }
            proof {
                assert(oc.take(j + 1).drop_last() =~= oc.take(j as int));
                assert(oc.take(j + 1).last() == oc[j as int]);
                assert(customs_map(customs@) =~~= merge_customs(
                    av.custom_histograms,
                    customs_map(oc.take(j + 1)),
                ));
            }
            j = j + 1;
        }
        proof {
            assert(oc.take(m as int) =~= oc);
        }
        let r = Summary {
            success,
            failure,
            timeout,
            bytes_read,
            bytes_written,
            status_codes,
            histogram,
            custom_histograms: customs,
        };
        proof {
            assert(r@ =~~= spec_add_summary(av, bv));
            assert forall|v: u64| #[trigger] hist_values(r.histogram).count(v) > 0 implies v
                <= hist_max(r.histogram) by {
                assert(hist_values(r.histogram).count(v) == av.histogram.count(v)
                    + bv.histogram.count(v));
            }
        }
        r
    }
}

} // verus!

verus! {

impl Summary {
    /// Registers a histogram under `name` for the analysis script, with
    /// the given bounds and accuracy; an existing histogram of that name
    /// is replaced by the fresh, empty one. Registration is owed for
    /// every definition with workable bounds: a positive minimum no
    /// larger than 2^45, a maximum of at least twice the minimum, and at
    /// most five digits of accuracy. It returns false, leaving the
    /// summary untouched, only for bounds the histogram library rejects.
    pub fn register_custom_histogram(
        &mut self,
        name: String,
        min: u64,
        max: u64,
        accuracy: u8,
    ) -> (r: bool)
        requires
            old(self).wf(),
        ensures
            final(self).wf(),
            (1 <= min && min <= (1u64 << 45) && 2 * min <= max && accuracy <= 5) ==> r,
            r ==> 1 <= min && min <= u64::MAX / 2 && 2 * min <= max && accuracy <= 5,
            r ==> final(self)@ == (SummaryModel {
                custom_histograms: old(self)@.custom_histograms.insert(
                    name@,
                    Multiset::empty(),
                ),
                ..old(self)@
            }),
            !r ==> *final(self) == *old(self),
            final(self).histogram == old(self).histogram,
    {
        let fresh = match hist_new_with_bounds(min, max, accuracy) {
            Some(h) => h,
            None => {
                return false;
            },
        };
        let ghost s0 = self.custom_histograms@;
        let n = self.custom_histograms.len();
        let mut i: usize = 0;
        while i < n
            invariant
                i <= n,
                self.custom_histograms@ == s0,
                *self == *old(self),
                forall|t: int| 0 <= t < i ==> (#[trigger] s0[t]).0@ != name@,
            decreases n - i,
        {
            if self.custom_histograms[i].0 == name {
                proof {
                    lemma_customs_map_update(s0, i as int, (name, fresh));
                }
                self.custom_histograms.set(i, (name, fresh));
                proof {
                    assert(customs_unique(self.custom_histograms@));
                    assert(self@ =~~= (SummaryModel {
                        custom_histograms: old(self)@.custom_histograms.insert(
                            name@,
                            Multiset::empty(),
                        ),
                        ..old(self)@
                    }));
                }
                return true;
            }
            i = i + 1;
        }
        proof {
            lemma_customs_map_absent(s0, name@);
        }
        self.custom_histograms.push((name, fresh));
        proof {
            assert(self.custom_histograms@.drop_last() =~= s0);
            assert(customs_unique(self.custom_histograms@));
            assert(self@ =~~= (SummaryModel {
                custom_histograms: old(self)@.custom_histograms.insert(name@, Multiset::empty()),
                ..old(self)@
            }));
        }
        true
    }
}

} // verus!

verus! {

/// Law: however many records are folded in, the histogram never receives
/// a value greater than `cap`, the configured timeout in milliseconds:
/// every recorded latency is clamped to it first.
pub proof fn lemma_fold_histogram_bounded(stats: Seq<RequestStats>, cap: u64)
    ensures
        forall|v: u64|
            #[trigger] fold_stats(empty_summary(), stats, cap).histogram.count(v) > 0 ==> v <= cap,
    decreases stats.len(),
{
    lemma_fold_histogram_bounded_any(empty_summary(), stats, cap);
}

/// The clamping step preserves any bound the starting histogram obeys.
proof fn lemma_fold_histogram_bounded_any(m: SummaryModel, stats: Seq<RequestStats>, cap: u64)
    requires
        forall|v: u64| #[trigger] m.histogram.count(v) > 0 ==> v <= cap,
    ensures
        forall|v: u64|
            #[trigger] fold_stats(m, stats, cap).histogram.count(v) > 0 ==> v <= cap,
    decreases stats.len(),
{
    if stats.len() > 0 {
        lemma_fold_histogram_bounded_any(m, stats.drop_last(), cap);
        let folded = fold_stats(m, stats.drop_last(), cap);
        let last = stats.last();
        assert forall|v: u64|
            #[trigger] spec_add_stat(folded, last, cap).histogram.count(v) > 0 implies v
            <= cap by {
            if !last.timeout && last.status is Some && last.request_time is Some {
                let t = last.request_time->Some_0;
                let clamped: u64 = if t > cap {
                    cap
                } else {
                    t
                };
                assert(spec_add_stat(folded, last, cap).histogram == folded.histogram.insert(
                    clamped,
                ));
                if v != clamped {
                    assert(folded.histogram.insert(clamped).count(v) == folded.histogram.count(v));
                }
            } else {
                assert(spec_add_stat(folded, last, cap).histogram == folded.histogram);
            }
        }
    }
}

} // verus!
