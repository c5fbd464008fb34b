use vstd::multiset::Multiset;
use vstd::prelude::*;

verus! {

/// An HDR latency histogram from an outside crate, wrapped at its u64
/// instantiation. Verus refuses to declare the crate's generic histogram
/// type (its `Counter` bound is an outside trait), so the library holds it
/// in an opaque struct; the field stays reachable for unverified callers
/// that render percentiles from it.
#[verifier::external_body]
pub struct LatencyHistogram {
    /// The histogram itself.
    pub inner: hdrhistogram::Histogram<u64>,
}

/// The multiset of values recorded in a histogram. The histogram keeps
/// them at its configured precision; the contracts below speak of the
/// values as handed in.
pub uninterp spec fn hist_values(h: LatencyHistogram) -> Multiset<u64>;

/// The current configuration of a histogram: lowest discernible value,
/// highest trackable value, significant digits, and whether it resizes
/// itself when a value exceeds the trackable range. Construction sets it;
/// a resize grows the trackable maximum.
pub uninterp spec fn hist_config(h: LatencyHistogram) -> (u64, u64, u8, bool);

/// The lowest discernible value of a histogram.
pub open spec fn hist_low(h: LatencyHistogram) -> u64 {
    hist_config(h).0
}

/// The highest trackable value of a histogram.
pub open spec fn hist_max(h: LatencyHistogram) -> u64 {
    hist_config(h).1
}

/// The number of significant digits a histogram keeps.
pub open spec fn hist_sig(h: LatencyHistogram) -> u8 {
    hist_config(h).2
}

/// Whether a histogram resizes itself for values past its range.
pub open spec fn hist_auto(h: LatencyHistogram) -> bool {
    hist_config(h).3
}

/// Relies on Histogram::new_with_max with three significant digits, which
/// succeeds exactly when the maximum is at least two: an empty histogram
/// tracking values from 1 up to `max`, without auto-resize.
#[verifier::external_body]
pub(crate) fn hist_new_with_max(max: u64) -> (r: Option<LatencyHistogram>)
    ensures
        r is Some <==> max >= 2,
        r matches Some(h) ==> hist_values(h) == Multiset::<u64>::empty() && hist_config(h) == (
            1u64,
            max,
            3u8,
            false,
        ),
{
    hdrhistogram::Histogram::new_with_max(max, 3).ok().map(|h| LatencyHistogram { inner: h })
}

/// Relies on Histogram::new with three significant digits, which fails
/// only for more than five digits: an empty auto-resizing histogram.
#[verifier::external_body]
pub(crate) fn hist_new_auto() -> (r: LatencyHistogram)
    ensures
        hist_values(r) == Multiset::<u64>::empty(),
        hist_config(r) == (1u64, 2u64, 3u8, true),
{
    LatencyHistogram { inner: hdrhistogram::Histogram::new(3).unwrap() }
}

/// Relies on Histogram::new_with_bounds: on success, an empty histogram
/// with the given bounds and digits, without auto-resize. It fails only
/// for a zero low bound, a low bound past half the u64 range, a high
/// bound under twice the low one, more than five digits, or a low bound
/// so large that the digits cannot be represented beside it; the last of
/// these is computed in floating point, so success is promised here only
/// up to a low bound of 2^45, below which every digit count up to five is
/// representable.
#[verifier::external_body]
pub(crate) fn hist_new_with_bounds(low: u64, max: u64, sig: u8) -> (r: Option<LatencyHistogram>)
    ensures
        (1 <= low && low <= (1u64 << 45) && 2 * low <= max && sig <= 5) ==> r is Some,
        r is Some ==> 1 <= low && low <= u64::MAX / 2 && 2 * low <= max && sig <= 5,
        r matches Some(h) ==> hist_values(h) == Multiset::<u64>::empty() && hist_config(h) == (
            low,
            max,
            sig,
            false,
        ),
{
    hdrhistogram::Histogram::new_with_bounds(low, max, sig).ok().map(|h| LatencyHistogram { inner: h })
}

/// Relies on Histogram::record: a value within the trackable range is
/// always recorded; past it, recording fails when auto-resize is off and
/// otherwise grows the range. A failed record leaves the histogram as it
/// was.
#[verifier::external_body]
pub(crate) fn hist_record(h: &mut LatencyHistogram, v: u64) -> (r: bool)
    ensures
        v <= hist_max(*old(h)) ==> r && hist_config(*final(h)) == hist_config(*old(h)),
        r ==> hist_values(*final(h)) == hist_values(*old(h)).insert(v),
        r ==> hist_low(*final(h)) == hist_low(*old(h)) && hist_sig(*final(h)) == hist_sig(
            *old(h),
        ) && hist_auto(*final(h)) == hist_auto(*old(h)) && hist_max(*final(h)) >= hist_max(
            *old(h),
        ),
        !r ==> *final(h) == *old(h),
{
    h.inner.record(v).is_ok()
}

/// Relies on Histogram::add: merges the other histogram's recorded values
/// into this one. Two histograms of one configuration always merge, as
/// does an empty one into anything; a failed merge leaves the histogram
/// as it was.
#[verifier::external_body]
pub(crate) fn hist_add(h: &mut LatencyHistogram, other: &LatencyHistogram) -> (r: bool)
    ensures
        (hist_config(*old(h)) == hist_config(*other) || hist_values(*other) == Multiset::<
            u64,
        >::empty()) ==> r && hist_config(*final(h)) == hist_config(*old(h)),
        r ==> hist_values(*final(h)) == hist_values(*old(h)).add(hist_values(*other)),
        r ==> hist_low(*final(h)) == hist_low(*old(h)) && hist_sig(*final(h)) == hist_sig(
            *old(h),
        ) && hist_auto(*final(h)) == hist_auto(*old(h)) && hist_max(*final(h)) >= hist_max(
            *old(h),
        ),
        !r ==> *final(h) == *old(h),
{
    h.inner.add(&other.inner).is_ok()
}

/// Relies on Histogram::high: the highest trackable value in the
/// histogram's current configuration.
#[verifier::external_body]
pub(crate) fn hist_high(h: &LatencyHistogram) -> (r: u64)
    ensures
        r == hist_max(*h),
{
    h.inner.high()
}

/// Relies on Clone for Histogram: an equal copy.
#[verifier::external_body]
pub(crate) fn hist_clone(h: &LatencyHistogram) -> (r: LatencyHistogram)
    ensures
        r == *h,
{
    LatencyHistogram { inner: h.inner.clone() }
}

} // verus!
