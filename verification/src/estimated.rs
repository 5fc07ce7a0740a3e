use vstd::prelude::*;

verus! {

/// How far an estimate can be trusted.
#[derive(Debug, Clone, Copy, PartialEq, Eq, PartialOrd, Ord, Structural)]
pub enum Confidence {
    Exact,
    Sampled,
    Guessed,
}

impl Confidence {
    /// Position in the order `Exact < Sampled < Guessed`.
    pub open spec fn rank(self) -> nat {
        match self {
            Confidence::Exact => 0,
            Confidence::Sampled => 1,
            Confidence::Guessed => 2,
        }
    }

    /// Relative allowance on the upper end of the interval, in thousandths.
    pub open spec fn margin_permille(self) -> nat {
        match self {
            Confidence::Exact => 0,
            Confidence::Sampled => 50,
            Confidence::Guessed => 200,
        }
    }

    /// Relative allowance on the upper end of the interval, in thousandths
    /// (0 for exact values, 5% for sampled ones, 20% for guesses).
    pub fn margin(self) -> (m: u64)
        ensures
            m == self.margin_permille(),
    {
        match self {
            Confidence::Exact => 0,
            Confidence::Sampled => 50,
            Confidence::Guessed => 200,
        }
    }

    /// The less trustworthy of two confidences.
    pub open spec fn spec_worst(self, other: Confidence) -> Confidence {
        if self.rank() >= other.rank() {
            self
        } else {
            other
        }
    }

    /// The less trustworthy of two confidences.
    pub fn worst(self, other: Confidence) -> (c: Confidence)
        ensures
            c == self.spec_worst(other),
    {
        match (self, other) {
            (Confidence::Guessed, _) => self,
            (_, Confidence::Guessed) => other,
            (Confidence::Sampled, _) => self,
            (_, Confidence::Sampled) => other,
            _ => self,
        }
    }
}

/// A quantity together with how far it can be trusted.
#[derive(Debug, Clone, Copy, PartialEq, Eq)]
pub struct Estimated<T> {
    pub value: T,
    pub confidence: Confidence,
}

/// Upper end of the interval around `value`: the value plus its relative
/// allowance, rounded half up.
pub open spec fn upper_bound(value: int, confidence: Confidence) -> int {
    value + (value * confidence.margin_permille() + 500) / 1000
}

/// Sum of the values of a sequence of estimates.
pub open spec fn sum_values(items: Seq<Estimated<u64>>) -> int
    decreases items.len(),
{
    if items.len() == 0 {
        0
    } else {
        sum_values(items.drop_last()) + items.last().value
    }
}

/// The least trustworthy confidence in a sequence (`Exact` for none).
pub open spec fn worst_confidence(items: Seq<Estimated<u64>>) -> Confidence
    decreases items.len(),
{
    if items.len() == 0 {
        Confidence::Exact
    } else {
        worst_confidence(items.drop_last()).spec_worst(items.last().confidence)
    }
}

impl Estimated<u64> {
    pub fn exact(value: u64) -> (e: Self)
        ensures
            e.value == value,
            e.confidence == Confidence::Exact,
    {
        Estimated { value, confidence: Confidence::Exact }
    }

    pub fn sampled(value: u64) -> (e: Self)
        ensures
            e.value == value,
            e.confidence == Confidence::Sampled,
    {
        Estimated { value, confidence: Confidence::Sampled }
    }

    pub fn guessed(value: u64) -> (e: Self)
        ensures
            e.value == value,
            e.confidence == Confidence::Guessed,
    {
        Estimated { value, confidence: Confidence::Guessed }
    }

    pub open spec fn spec_upper(self) -> int {
        upper_bound(self.value as int, self.confidence)
    }

    /// Upper end of the interval: the figure by which "it fits" is decided.
    pub fn upper(self) -> (u: u64)
        requires
            self.spec_upper() <= u64::MAX,
        ensures
            u == self.spec_upper(),
    {
        let m = self.confidence.margin();
        let extra = ((self.value as u128) * (m as u128) + 500) / 1000;
        assert(extra <= self.value) by (nonlinear_arith)
            requires
                extra == ((self.value as u128) * (m as u128) + 500) / 1000,
                m <= 200,
        ;
        self.value + extra as u64
    }

    /// Sum of estimates: values add up, the confidence is the worst one.
    pub fn sum(items: &[Estimated<u64>]) -> (s: Estimated<u64>)
        requires
            sum_values(items@) <= u64::MAX,
        ensures
            s.value == sum_values(items@),
            s.confidence == worst_confidence(items@),
    {
        let mut value: u64 = 0;
        let mut confidence = Confidence::Exact;
        let mut i: usize = 0;
        while i < items.len()
            invariant
                i <= items@.len(),
                sum_values(items@) <= u64::MAX,
                value == sum_values(items@.subrange(0, i as int)),
                confidence == worst_confidence(items@.subrange(0, i as int)),
            decreases items@.len() - i,
        {
            proof {
                let pre = items@.subrange(0, i as int);
                let next = items@.subrange(0, i + 1);
                assert(next.drop_last() =~= pre);
                lemma_sum_values_prefix_le(items@, i + 1);
            }
            value = value + items[i].value;
            confidence = confidence.worst(items[i].confidence);
            i = i + 1;
        }
        assert(items@.subrange(0, i as int) =~= items@);
        Estimated { value, confidence }
    }
}

/// A prefix never sums to more than the whole sequence.
pub proof fn lemma_sum_values_prefix_le(items: Seq<Estimated<u64>>, n: int)
    requires
        0 <= n <= items.len(),
    ensures
        sum_values(items.subrange(0, n)) <= sum_values(items),
    decreases items.len() - n,
{
    if n < items.len() {
        lemma_sum_values_prefix_le(items, n + 1);
        assert(items.subrange(0, n + 1).drop_last() =~= items.subrange(0, n));
    } else {
        assert(items.subrange(0, n) =~= items);
    }
}

/// The less an estimate can be trusted, the higher the upper end of its
/// interval: for the same value, a confidence further down the order
/// `Exact < Sampled < Guessed` never gives a lower bound, and an exact value
/// is its own upper end.
pub proof fn law_upper_bound_grows_with_uncertainty(value: u64, a: Confidence, b: Confidence)
    requires
        a.rank() <= b.rank(),
    ensures
        upper_bound(value as int, a) <= upper_bound(value as int, b),
        upper_bound(value as int, Confidence::Exact) == value,
        value as int <= upper_bound(value as int, a),
{
    let ma = a.margin_permille() as int;
    let mb = b.margin_permille() as int;
    assert(ma <= mb);
    let v = value as int;
    assert((v * ma + 500) / 1000 <= (v * mb + 500) / 1000) by (nonlinear_arith)
        requires
            0 <= ma <= mb,
            0 <= v,
    ;
    assert((v * 0 + 500) / 1000 == 0) by (nonlinear_arith);
    assert(0 <= (v * ma + 500) / 1000) by (nonlinear_arith)
        requires
            0 <= ma,
            0 <= v,
    ;
}

/// The sum of estimates is exactly as trustworthy as its least trustworthy
/// part: no part has a worse confidence, and (when there are parts) one of
/// them has exactly that confidence.
pub proof fn law_sum_takes_worst_confidence(items: Seq<Estimated<u64>>)
    ensures
        forall|i: int| 0 <= i < items.len() ==> (#[trigger] items[i]).confidence.rank() <= worst_confidence(items).rank(),
        items.len() > 0 ==> exists|i: int| 0 <= i < items.len() && (#[trigger] items[i]).confidence == worst_confidence(items),
        items.len() == 0 ==> worst_confidence(items) == Confidence::Exact,
    decreases items.len(),
{
    if items.len() > 0 {
        let r = items.drop_last();
        law_sum_takes_worst_confidence(r);
        assert forall|i: int| 0 <= i < items.len() implies (#[trigger] items[i]).confidence.rank() <= worst_confidence(items).rank() by {
            if i < items.len() - 1 {
                assert(items[i] == r[i]);
            }
        }
        if worst_confidence(items) == items.last().confidence {
            assert(items[items.len() - 1].confidence == worst_confidence(items));
        } else {
            let k = choose|k: int| 0 <= k < r.len() && (#[trigger] r[k]).confidence == worst_confidence(r);
            assert(items[k] == r[k]);
        }
    }
}

} // verus!
