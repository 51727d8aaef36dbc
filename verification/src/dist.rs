//! Weighted categorical distributions over value tables.
//!
//! A configuration is a list of `(weight, value)` pairs with fixed-point
//! weights.  On use it is normalized, and a sampling table in the style of
//! the weighted-alias method is prebuilt so that each draw costs exactly
//! two stream words: one for the column, one for the coin deciding
//! between the column's owner and its alias.

use vstd::prelude::*;
use vstd::pervasive::VecAdditionalExecFns;

use crate::error::GenError;
use crate::random::{Random, spec_stream, PROB_SCALE};

verus! {

/// A fixed-point weight (in units of `PROB_SCALE`) paired with the value
/// it selects.
#[derive(Clone, Copy, Debug)]
pub struct ProbableValue<T>(pub u32, pub T);

impl<T: Copy> ProbableValue<T> {
    /// A weighted value from its two parts.
    pub fn new(probability: u32, value: T) -> (r: Self)
        ensures
            r.0 == probability && r.1 == value,
    {
        ProbableValue(probability, value)
    }
}

/// The sum of the weights of a value table.
pub open spec fn spec_weight_sum<T>(s: Seq<ProbableValue<T>>) -> int
    decreases s.len(),
{
    if s.len() == 0 {
        0
    } else {
        spec_weight_sum(s.drop_last()) + s.last().0
    }
}

/// Every weight in a table is at most the table's weight sum.
pub proof fn lemma_weight_le_sum<T>(s: Seq<ProbableValue<T>>, i: int)
    requires
        0 <= i < s.len(),
    ensures
        s[i].0 <= spec_weight_sum(s),
        spec_weight_sum(s) >= 0,
    decreases s.len(),
{
    if s.len() > 0 {
        if i == s.len() - 1 {
            lemma_weight_sum_nonneg(s.drop_last());
        } else {
            lemma_weight_le_sum(s.drop_last(), i);
            assert(s.drop_last()[i] == s[i]);
        }
    }
}

/// A weight sum is never negative.
pub proof fn lemma_weight_sum_nonneg<T>(s: Seq<ProbableValue<T>>)
    ensures
        spec_weight_sum(s) >= 0,
    decreases s.len(),
{
    if s.len() > 0 {
        lemma_weight_sum_nonneg(s.drop_last());
    }
}

/// A weight at most the sum divides into a fraction at most the scale.
pub proof fn lemma_mul_div_le(w: int, s: int, sum: int)
    requires
        0 <= w,
        w <= sum,
        0 < sum,
        0 <= s,
    ensures
        w * s / sum <= s,
{
    assert(w * s <= sum * s) by (nonlinear_arith)
        requires
            0 <= w,
            w <= sum,
            0 <= s,
    ;
    vstd::arithmetic::div_mod::lemma_div_is_ordered(w * s, sum * s, sum);
    vstd::arithmetic::div_mod::lemma_div_multiples_vanish(s, sum);
}

/// The weight entry `i` receives when a table with weight sum `sum` is
/// normalized.
pub open spec fn spec_normalized_weight<T>(s: Seq<ProbableValue<T>>, i: int) -> int {
    let sum = spec_weight_sum(s);
    if sum == PROB_SCALE {
        s[i].0 as int
    } else if sum == 0 {
        PROB_SCALE as int / s.len() as int
    } else {
        s[i].0 * PROB_SCALE / sum
    }
}

/// The whole table after normalization.
pub open spec fn spec_normalized<T>(s: Seq<ProbableValue<T>>) -> Seq<ProbableValue<T>> {
    Seq::new(s.len(), |i: int| ProbableValue(spec_normalized_weight(s, i) as u32, s[i].1))
}

/// A table no distribution can be built from: empty, or all zero after
/// normalization.
pub open spec fn spec_dist_unusable<T>(s: Seq<ProbableValue<T>>) -> bool {
    s.len() == 0 || spec_weight_sum(spec_normalized(s)) == 0
}

/// A parallel pair of values and fixed-point weights.
#[derive(Clone, Debug)]
pub struct RandomDistConfig<T> {
    pub values: Vec<ProbableValue<T>>,
}

impl<T: Copy> RandomDistConfig<T> {
    /// An exact copy of the table.
    pub fn duplicate(&self) -> (r: Self)
        ensures
            r.values@ == self.values@,
    {
        let n = self.values.len();
        let mut values: Vec<ProbableValue<T>> = Vec::new();
        let mut i: usize = 0;
        while i < n
            invariant
                i <= n,
                n == self.values@.len(),
                values@.len() == i,
                forall|k: int| 0 <= k < i ==> values@[k] == self.values@[k],
            decreases n - i,
        {
            values.push(self.values[i]);
            i = i + 1;
        }
        proof {
            assert(values@ =~= self.values@);
        }
        RandomDistConfig { values }
    }

    /// An empty table.
    pub fn new() -> (r: Self)
        ensures
            r.values@.len() == 0,
    {
        RandomDistConfig { values: Vec::new() }
    }

    /// A table from its weighted values.
    pub fn from_values(values: Vec<ProbableValue<T>>) -> (r: Self)
        ensures
            r.values@ == values@,
    {
        RandomDistConfig { values }
    }

    /// The entry at `index`.
    pub fn get(&self, index: usize) -> (r: ProbableValue<T>)
        requires
            index < self.values@.len(),
        ensures
            r.0 == self.values@[index as int].0,
            r.1 == self.values@[index as int].1,
    {
        self.values[index]
    }

    /// Normalize the weights: a table already summing to the full scale is
    /// kept; an all-zero table becomes uniform; any other is divided by
    /// its sum.  An empty table is rejected with `EmptyDistribution`.
    pub fn normalize_probs(&mut self) -> (r: Result<(), GenError>)
        requires
            old(self).values@.len() <= PROB_SCALE as int,
        ensures
            final(self).values@.len() == old(self).values@.len(),
            match r {
                Ok(()) => {
                    &&& old(self).values@.len() > 0
                    &&& forall|i: int|
                        0 <= i < old(self).values@.len() ==> final(self).values@[i].0
                            == spec_normalized_weight(old(self).values@, i)
                    &&& forall|i: int|
                        0 <= i < old(self).values@.len() ==> final(self).values@[i].1
                            == old(self).values@[i].1
                },
                Err(e) => {
                    &&& e == GenError::EmptyDistribution
                    &&& old(self).values@.len() == 0
                    &&& *final(self) == *old(self)
                },
            },
    {
        let n = self.values.len();
        if n == 0 {
            return Err(GenError::EmptyDistribution);
        }
        let ghost orig = self.values@;
        let mut sum: u64 = 0;
        let mut i: usize = 0;
        while i < n
            invariant
                i <= n,
                n <= PROB_SCALE,
                n == self.values@.len(),
                self.values@ == orig,
                sum == spec_weight_sum(orig.take(i as int)),
                sum <= i * 0xFFFF_FFFFu64,
            decreases n - i,
        {
            proof {
                assert(orig.take(i + 1).drop_last() =~= orig.take(i as int));
                assert(orig.take(i + 1).last() == orig[i as int]);
            }
            sum = sum + (self.values[i].0 as u64);
            i = i + 1;
        }
        proof {
            assert(orig.take(n as int) =~= orig);
        }
        if sum == PROB_SCALE as u64 {
            return Ok(());
        }
        if sum == 0 {
            let uw: u32 = PROB_SCALE / (n as u32);
            let mut j: usize = 0;
            while j < n
                invariant
                    j <= n,
                    n == self.values@.len(),
                    n == orig.len(),
                    0 < n <= PROB_SCALE as int,
                    uw == PROB_SCALE as int / n as int,
                    forall|k: int| 0 <= k < j ==> self.values@[k].0 == uw,
                    forall|k: int| 0 <= k < j ==> self.values@[k].1 == orig[k].1,
                    forall|k: int| j <= k < n ==> self.values@[k] == orig[k],
                decreases n - j,
            {
                let v = self.values[j].1;
                self.values.set(j, ProbableValue(uw, v));
                j = j + 1;
            }
            Ok(())
        } else {
            let ghost s0 = spec_weight_sum(orig);
            let mut j: usize = 0;
            while j < n
                invariant
                    j <= n,
                    n == self.values@.len(),
                    n == orig.len(),
                    sum == s0,
                    0 < sum,
                    s0 == spec_weight_sum(orig),
                    forall|k: int|
                        0 <= k < j ==> self.values@[k].0 == orig[k].0 * PROB_SCALE / s0,
                    forall|k: int| 0 <= k < j ==> self.values@[k].1 == orig[k].1,
                    forall|k: int| j <= k < n ==> self.values@[k] == orig[k],
                decreases n - j,
            {
                let w: u64 = self.values[j].0 as u64;
                proof {
                    lemma_weight_le_sum(orig, j as int);
                }
                assert(w * (PROB_SCALE as u64) <= 0xFFFF_FFFFu64 * 0xF_4240u64) by (nonlinear_arith)
                    requires
                        w <= 0xFFFF_FFFFu64,
                ;
                let nw: u64 = w * (PROB_SCALE as u64) / sum;
                proof {
                    lemma_mul_div_le(w as int, PROB_SCALE as int, sum as int);
                }
                let v = self.values[j].1;
                self.values.set(j, ProbableValue(nw as u32, v));
                j = j + 1;
            }
            Ok(())
        }
    }
}

/// A table together with its prebuilt two-word sampling columns.
///
/// Column `j` answers its own index when the second word's coin falls
/// under `threshold[j]` (out of `total`), and `alias[j]` otherwise.
/// The contracts pin the normalized weights exactly and every draw as a
/// deterministic in-bounds function of its two stream words; the
/// statistical faithfulness of the prebuilt columns to the weights is
/// checked by tests, not stated as a contract.
#[derive(Clone, Debug)]
pub struct RandomDist<T> {
    pub config: RandomDistConfig<T>,
    pub threshold: Vec<u64>,
    pub alias: Vec<usize>,
    pub total: u64,
}

impl<T: Copy> RandomDist<T> {
    /// The sampling columns are complete and in bounds.
    pub open spec fn wf(self) -> bool {
        let n = self.config.values@.len();
        &&& n > 0
        &&& self.total > 0
        &&& self.threshold@.len() == n
        &&& self.alias@.len() == n
        &&& forall|i: int| 0 <= i < n ==> self.threshold@[i] <= self.total
        &&& forall|i: int| 0 <= i < n ==> self.alias@[i] < n
    }

    /// An empty distribution; it cannot be sampled until it is rebuilt
    /// from a non-empty configuration.
    pub fn new() -> (r: Self)
        ensures
            r.config.values@.len() == 0,
    {
        RandomDist {
            config: RandomDistConfig::new(),
            threshold: Vec::new(),
            alias: Vec::new(),
            total: 0,
        }
    }

    /// Normalize a configuration and prebuild its sampling columns.
    /// An empty table is rejected with `EmptyDistribution`.
    pub fn from_config(config: RandomDistConfig<T>) -> (r: Result<Self, GenError>)
        requires
            config.values@.len() <= PROB_SCALE as int,
        ensures
            match r {
                Ok(d) => {
                    &&& d.wf()
                    &&& d.config.values@.len() == config.values@.len()
                    &&& forall|i: int|
                        0 <= i < config.values@.len() ==> d.config.values@[i].1
                            == config.values@[i].1
                    &&& forall|i: int|
                        0 <= i < config.values@.len() ==> d.config.values@[i].0
                            == spec_normalized_weight(config.values@, i)
                },
                Err(e) => {
                    &&& e == GenError::EmptyDistribution
                    &&& spec_dist_unusable(config.values@)
                },
            },
            spec_dist_unusable(config.values@) <==> r is Err,
    {
        let ghost orig = config.values@;
        let mut config = config;
        match config.normalize_probs() {
            Ok(()) => {},
            Err(e) => {
                return Err(e);
            },
        }
        proof {
            assert forall|k: int| 0 <= k < config.values@.len() implies config.values@[k].0
                <= PROB_SCALE by {
                lemma_weight_le_sum(orig, k);
                let sum = spec_weight_sum(orig);
                assert(config.values@[k].0 == spec_normalized_weight(orig, k));
                if sum != PROB_SCALE && sum != 0 {
                    lemma_mul_div_le(orig[k].0 as int, PROB_SCALE as int, sum);
                    assert(spec_normalized_weight(orig, k) <= PROB_SCALE);
                } else if sum == 0 {
                    vstd::arithmetic::div_mod::lemma_div_nonincreasing(
                        PROB_SCALE as int,
                        orig.len() as int,
                    );
                    assert(spec_normalized_weight(orig, k) <= PROB_SCALE);
                } else {
                    assert(spec_normalized_weight(orig, k) == orig[k].0 as int);
                    assert(orig[k].0 <= sum);
                }
            }
        }
        let n = config.values.len();
        let ghost norm = config.values@;
        let mut total: u64 = 0;
        let mut i: usize = 0;
        while i < n
            invariant
                i <= n,
                n <= PROB_SCALE,
                n == config.values@.len(),
                config.values@ == norm,
                total == spec_weight_sum(norm.take(i as int)),
                total <= i * (PROB_SCALE as u64),
                forall|k: int|
                    0 <= k < n ==> config.values@[k].0 <= PROB_SCALE,
            decreases n - i,
        {
            proof {
                assert(norm.take(i + 1).drop_last() =~= norm.take(i as int));
                assert(norm.take(i + 1).last() == norm[i as int]);
            }
            let w: u64 = config.values[i].0 as u64;
            assert(total + w <= (i + 1) * (PROB_SCALE as u64) && total + w <= 0xF_4240u64
                * 0xF_4240u64) by (nonlinear_arith)
                requires
                    total <= i * (PROB_SCALE as u64),
                    w <= PROB_SCALE as u64,
                    PROB_SCALE == 0xF_4240u32,
                    i < n <= PROB_SCALE as u64,
            ;
            total = total + w;
            i = i + 1;
        }
        proof {
            assert(norm.take(n as int) =~= norm);
        }
        if total == 0 {
            proof {
                assert(norm =~= spec_normalized(orig));
            }
            return Err(GenError::EmptyDistribution);
        }
        // Scale each weight by the column count; columns have capacity
        // `total` each, so entries at or above `total` overflow into the
        // columns of smaller entries.
        let mut scaled: Vec<u64> = Vec::new();
        let mut k: usize = 0;
        while k < n
            invariant
                k <= n,
                n == config.values@.len(),
                n <= PROB_SCALE as int,
                scaled@.len() == k,
                forall|t: int| 0 <= t < k ==> scaled@[t] <= (PROB_SCALE as u64) * (PROB_SCALE as u64),
                forall|t: int| 0 <= t < n ==> config.values@[t].0 <= PROB_SCALE,
            decreases n - k,
        {
            let w: u64 = config.values[k].0 as u64;
            assert(w * (n as u64) <= (PROB_SCALE as u64) * (PROB_SCALE as u64)) by (nonlinear_arith)
                requires
                    w <= PROB_SCALE as u64,
                    n as u64 <= PROB_SCALE as u64,
            ;
            scaled.push(w * (n as u64));
            k = k + 1;
        }
        let mut threshold: Vec<u64> = vec![total; n];
        let mut alias: Vec<usize> = Vec::new();
        let mut a: usize = 0;
        while a < n
            invariant
                a <= n,
                alias@.len() == a,
                forall|t: int| 0 <= t < a ==> alias@[t] < n,
            decreases n - a,
        {
            alias.push(a);
            a = a + 1;
        }
        let mut small: Vec<usize> = Vec::new();
        let mut large: Vec<usize> = Vec::new();
        let mut c: usize = 0;
        while c < n
            invariant
                c <= n,
                n == scaled@.len(),
                forall|t: int| 0 <= t < small@.len() ==> small@[t] < n,
                forall|t: int| 0 <= t < large@.len() ==> large@[t] < n,
            decreases n - c,
        {
            if scaled[c] < total {
                small.push(c);
            } else {
                large.push(c);
            }
            c = c + 1;
        }
        while small.len() > 0 && large.len() > 0
            invariant
                n == scaled@.len(),
                n == threshold@.len(),
                n == alias@.len(),
                n == config.values@.len(),
                total > 0,
                forall|t: int| 0 <= t < small@.len() ==> small@[t] < n,
                forall|t: int| 0 <= t < large@.len() ==> large@[t] < n,
                forall|t: int| 0 <= t < n ==> threshold@[t] <= total,
                forall|t: int| 0 <= t < n ==> alias@[t] < n,
            decreases small@.len() + large@.len(),
        {
            let s = small.pop().unwrap();
            let l = large[large.len() - 1];
            threshold.set(s, scaled[s] % total);
            alias.set(s, l);
            let gap = total - (scaled[s] % total);
            let sl = scaled[l];
            if sl >= gap {
                scaled.set(l, sl - gap);
            } else {
                scaled.set(l, 0);
            }
            if scaled[l] < total {
                let _ = large.pop();
                small.push(l);
            }
        }
        proof {
            assert(norm =~= spec_normalized(orig));
        }
        Ok(RandomDist { config, threshold, alias, total })
    }
}

/// The index a distribution answers for the two words `w1` and `w2`.
pub open spec fn spec_sample_index<T>(d: RandomDist<T>, w1: u64, w2: u64) -> int {
    let n = d.config.values@.len() as int;
    let j = w1 as int % n;
    let t = w2 as int % d.total as int;
    if t < d.threshold@[j] {
        j
    } else {
        d.alias@[j] as int
    }
}

impl Random {
    /// Draw an index from a prebuilt distribution.  Always consumes
    /// exactly two stream words.
    pub fn sample_index<T: Copy>(&mut self, dist: &RandomDist<T>) -> (r: usize)
        requires
            old(self).wf(),
            dist.wf(),
        ensures
            final(self).wf(),
            final(self).seed == old(self).seed,
            final(self).count@ == old(self).count@ + 2,
            r < dist.config.values@.len(),
            r == spec_sample_index(
                *dist,
                spec_stream(old(self).seed, old(self).count@),
                spec_stream(old(self).seed, old(self).count@ + 1),
            ),
    {
        let w1 = self.gen_u64();
        let w2 = self.gen_u64();
        let n = dist.config.values.len();
        let j = (w1 % (n as u64)) as usize;
        let t = w2 % dist.total;
        if t < dist.threshold[j] {
            j
        } else {
            dist.alias[j]
        }
    }

    /// Draw a value from a prebuilt distribution; two stream words.
    pub fn sample_value<T: Copy>(&mut self, dist: &RandomDist<T>) -> (r: T)
        requires
            old(self).wf(),
            dist.wf(),
        ensures
            final(self).wf(),
            final(self).seed == old(self).seed,
            final(self).count@ == old(self).count@ + 2,
            r == dist.config.values@[spec_sample_index(
                *dist,
                spec_stream(old(self).seed, old(self).count@),
                spec_stream(old(self).seed, old(self).count@ + 1),
            )].1,
    {
        let i = self.sample_index(dist);
        dist.config.get(i).1
    }
}

} // verus!
