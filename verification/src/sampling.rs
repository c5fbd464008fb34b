use crate::request::{lemma_weight_sum_take_bound, weight_sum, RequestBuilder, RequestStore};
use vstd::pervasive::unreached;
use vstd::prelude::*;

verus! {

pub assume_specification<T>[ rand::random::<T> ]() -> (r: T)
    where
        rand::distributions::Standard: rand::distributions::Distribution<T>,
;

/// Whether `t` is one of the corpus's templates.
pub open spec fn drawn_from(corpus: Seq<crate::request::TemplateModel>, t: crate::request::TemplateModel) -> bool {
    exists|k: int| 0 <= k < corpus.len() && t == corpus[k]
}

/// The cumulative weight of the first `i` entries.
pub open spec fn prefix_weight(ws: Seq<u64>, i: int) -> int {
    weight_sum(ws.take(i))
}

/// Law: the draws that select index `i` form exactly the interval from
/// `prefix_weight(i)` to `prefix_weight(i + 1)`, whose width is the weight
/// of `i`. With `sample_index` applied to a uniform draw below the total
/// weight, each index is therefore hit with probability proportional to
/// its weight.
pub proof fn lemma_draw_interval_width(ws: Seq<u64>, i: int)
    requires
        0 <= i < ws.len(),
    ensures
        prefix_weight(ws, i + 1) - prefix_weight(ws, i) == ws[i],
{
    assert(ws.take(i + 1).drop_last() =~= ws.take(i));
    assert(ws.take(i + 1).last() == ws[i]);
}

/// Inverse-transform sampling step: the unique index whose cumulative
/// weight interval `[prefix_weight(i), prefix_weight(i + 1))` contains the
/// draw `r`. An index is hit with probability proportional to its weight
/// when `r` is drawn uniformly below the total weight.
pub fn sample_index(ws: &Vec<u64>, r: u64) -> (idx: usize)
    requires
        ws@.len() >= 1,
        forall|i: int| 0 <= i < ws@.len() ==> ws@[i] >= 1,
        weight_sum(ws@) <= u64::MAX,
        r < weight_sum(ws@),
    ensures
        idx < ws@.len(),
        prefix_weight(ws@, idx as int) <= r < prefix_weight(ws@, idx as int + 1),
{
    let n = ws.len();
    let mut acc: u64 = 0;
    let mut i: usize = 0;
    proof {
        assert(ws@.take(0) =~= Seq::<u64>::empty());
    }
    while i < n
        invariant
            i <= n,
            acc == prefix_weight(ws@, i as int),
            acc <= r,
        decreases n - i,
    {
        proof {
            assert(ws@.take(i + 1).drop_last() =~= ws@.take(i as int));
            assert(ws@.take(i + 1).last() == ws@[i as int]);
            lemma_weight_sum_take_bound(ws@, i + 1);
        }
        let step = acc + ws[i];
        if r < step {
            return i;
        }
        acc = step;
        i = i + 1;
    }
    proof {
        assert(ws@.take(n as int) =~= ws@);
        assert(false);
    }
    unreached()
}

impl RequestStore {
    /// The total weight of the corpus; positive for a well-formed corpus.
    fn total_weight(&self) -> (t: u64)
        requires
            self.wf(),
        ensures
            t == weight_sum(self.weights@),
            t >= 1,
    {
        let n = self.weights.len();
        let mut acc: u64 = 0;
        let mut i: usize = 0;
        proof {
            assert(self.weights@.take(0) =~= Seq::<u64>::empty());
        }
        while i < n
            invariant
                i <= n,
                acc == weight_sum(self.weights@.take(i as int)),
            decreases n - i,
        {
            proof {
                assert(self.weights@.take(i + 1).drop_last() =~= self.weights@.take(i as int));
                assert(self.weights@.take(i + 1).last() == self.weights@[i as int]);
                lemma_weight_sum_take_bound(self.weights@, i + 1);
            }
            acc = acc + self.weights[i];
            i = i + 1;
        }
        proof {
            assert(self.weights@.take(n as int) =~= self.weights@);
            assert(self.weights@.take(1).drop_last() =~= Seq::<u64>::empty());
            assert(self.weights@.take(1).last() == self.weights@[0]);
            assert(weight_sum(Seq::<u64>::empty()) == 0);
            assert(weight_sum(self.weights@.take(1)) == self.weights@[0]);
            lemma_weight_sum_take_bound(self.weights@, 1);
        }
        acc
    }

    /// One template drawn by weight.
    pub fn get_request(&self) -> (r: &RequestBuilder)
        requires
            self.wf(),
        ensures
            drawn_from(self.templates(), r@),
    {
        let total = self.total_weight();
        let draw: u64 = rand::random::<u64>();
        let idx = sample_index(&self.weights, draw % total);
        proof {
            assert(self.templates()[idx as int] == self.requests@[idx as int]@);
        }
        &self.requests[idx]
    }

    /// Draw `samples` templates by weight, with replacement. Workers call
    /// this once with the corpus size to obtain a randomised cycle which
    /// they then iterate indefinitely. Drawing nothing from a corpus is a
    /// caller error, ruled out up front.
    pub fn get_requests(&self, samples: usize) -> (r: Vec<&RequestBuilder>)
        requires
            self.wf(),
            samples >= 1,
        ensures
            r@.len() == samples,
            forall|j: int| 0 <= j < r@.len() ==> drawn_from(self.templates(), #[trigger] r@[j]@),
    {
        let total = self.total_weight();
        let mut out: Vec<&RequestBuilder> = Vec::new();
        let mut s: usize = 0;
        while s < samples
            invariant
                s <= samples,
                out@.len() == s,
                forall|j: int|
                    0 <= j < out@.len() ==> drawn_from(self.templates(), #[trigger] out@[j]@),
            decreases samples - s,
        {
            let draw: u64 = rand::random::<u64>();
            let idx = sample_index(&self.weights, draw % total);
            proof {
                assert(self.templates()[idx as int] == self.requests@[idx as int]@);
            }
            out.push(&self.requests[idx]);
            s = s + 1;
        }
        out
    }
}

} // verus!
