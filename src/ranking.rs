use vstd::prelude::*;
use vstd::seq_lib::{to_multiset_build, to_multiset_contains, to_multiset_insert, to_multiset_len, to_multiset_remove};

use crate::algorithm::Algorithm;
use crate::error::AutoMlError;
use crate::metric::Metric;

verus! {

/// One row of the comparison report. The score is an order-preserving key of
/// the metric's value: a larger key means a larger value.
#[derive(PartialEq, Eq, Structural, Clone, Copy, Debug)]
pub struct ComparisonEntry {
    pub algorithm: Algorithm,
    pub score: u64,
}

/// What cross-validation gave for one algorithm: its score, or nothing when
/// its trainer or predictor failed.
#[derive(PartialEq, Eq, Structural, Clone, Copy, Debug)]
pub struct Evaluation {
    pub algorithm: Algorithm,
    pub score: Option<u64>,
}

/// Score turned so that smaller is better under metric `m`.
pub open spec fn directed(m: Metric, score: u64) -> int {
    if m.higher_is_better_spec() {
        -(score as int)
    } else {
        score as int
    }
}

/// Whether `a` may stand before `b` in a report ranked by `m`: a better score,
/// or an equal one and an algorithm declared no later in the registry.
pub open spec fn ranks_before(m: Metric, a: ComparisonEntry, b: ComparisonEntry) -> bool {
    directed(m, a.score) < directed(m, b.score) || (directed(m, a.score) == directed(m, b.score)
        && a.algorithm.index_spec() <= b.algorithm.index_spec())
}

/// Whether the entries are in report order for metric `m`.
pub open spec fn is_ranked(m: Metric, s: Seq<ComparisonEntry>) -> bool {
    forall|i: int, j: int| 0 <= i < j < s.len() ==> ranks_before(m, #[trigger] s[i], #[trigger] s[j])
}

/// The entries of the evaluations that produced a score, in their order.
pub open spec fn scored(evals: Seq<Evaluation>) -> Seq<ComparisonEntry>
    decreases evals.len(),
{
    if evals.len() == 0 {
        Seq::empty()
    } else {
        let rest = scored(evals.drop_last());
        match evals.last().score {
            Some(x) => rest.push(ComparisonEntry { algorithm: evals.last().algorithm, score: x }),
            None => rest,
        }
    }
}

/// The algorithms whose evaluation failed, in their order.
pub open spec fn failed(evals: Seq<Evaluation>) -> Seq<Algorithm>
    decreases evals.len(),
{
    if evals.len() == 0 {
        Seq::empty()
    } else {
        let rest = failed(evals.drop_last());
        match evals.last().score {
            Some(_) => rest,
            None => rest.push(evals.last().algorithm),
        }
    }
}

/// Whether `a` may stand before `b` in a report ranked by `m`.
pub fn ranks_before_exec(m: Metric, a: ComparisonEntry, b: ComparisonEntry) -> (r: bool)
    ensures
        r == ranks_before(m, a, b),
{
    if a.score == b.score {
        a.algorithm.index() <= b.algorithm.index()
    } else if m.higher_is_better() {
        a.score > b.score
    } else {
        a.score < b.score
    }
}

/// Ranks the scored evaluations by metric `m`: error metrics ascending, R^2
/// and accuracy descending, equal scores in registry declaration order.
/// Failed evaluations are left out and the others all kept. An unset metric
/// is refused before anything is ranked.
pub fn rank(m: Metric, evaluations: &Vec<Evaluation>) -> (r: Result<
    Vec<ComparisonEntry>,
    AutoMlError,
>)
    ensures
        !m.is_set_spec() <==> r == Err::<Vec<ComparisonEntry>, AutoMlError>(
            AutoMlError::UnsetMetric,
        ),
        m.is_set_spec() ==> r is Ok,
        r is Ok ==> r->Ok_0@.to_multiset() == scored(evaluations@).to_multiset(),
        r is Ok ==> is_ranked(m, r->Ok_0@),
{
    if !m.is_set() {
        return Err(AutoMlError::UnsetMetric);
    }
    let mut out: Vec<ComparisonEntry> = Vec::new();
    let mut i: usize = 0;
    while i < evaluations.len()
        invariant
            i <= evaluations@.len(),
            out@.to_multiset() == scored(evaluations@.take(i as int)).to_multiset(),
            is_ranked(m, out@),
        decreases evaluations@.len() - i,
    {
        let e = evaluations[i];
        proof {
            assert(evaluations@.take(i + 1).drop_last() =~= evaluations@.take(i as int));
            assert(evaluations@.take(i + 1).last() == e);
        }
        match e.score {
            Some(x) => {
                let entry = ComparisonEntry { algorithm: e.algorithm, score: x };
                let mut j: usize = 0;
                while j < out.len() && ranks_before_exec(m, out[j], entry)
                    invariant
                        j <= out@.len(),
                        forall|t: int| 0 <= t < j ==> ranks_before(m, #[trigger] out@[t], entry),
                    decreases out@.len() - j,
                {
                    j = j + 1;
                }
                let ghost before = out@;
                out.insert(j, entry);
                proof {
                    to_multiset_insert(before, j as int, entry);
                    to_multiset_build(scored(evaluations@.take(i as int)), entry);
                    assert forall|p: int, q: int|
                        0 <= p < q < out@.len() implies ranks_before(
                        m,
                        #[trigger] out@[p],
                        #[trigger] out@[q],
                    ) by {
                        if p < j && q == j {
                        } else if p < j && q > j {
                            assert(out@[q] == before[q - 1]);
                        } else if p == j && q > j {
                            assert(out@[q] == before[q - 1]);
                            assert(ranks_before(m, before[j as int], before[q - 1]) || q - 1
                                == j);
                        } else if p > j {
                            assert(out@[q] == before[q - 1]);
                            assert(out@[p] == before[p - 1]);
                        }
                    }
                }
            },
            None => {},
        }
        i = i + 1;
    }
    proof {
        assert(evaluations@.take(i as int) =~= evaluations@);
    }
    Ok(out)
}

/// The algorithms whose evaluation failed, in their order; the report lists
/// them apart from the skipped ones.
pub fn failed_algorithms(evaluations: &Vec<Evaluation>) -> (r: Vec<Algorithm>)
    ensures
        r@ == failed(evaluations@),
{
    let mut out: Vec<Algorithm> = Vec::new();
    let mut i: usize = 0;
    while i < evaluations.len()
        invariant
            i <= evaluations@.len(),
            out@ == failed(evaluations@.take(i as int)),
        decreases evaluations@.len() - i,
    {
        let e = evaluations[i];
        proof {
            assert(evaluations@.take(i + 1).drop_last() =~= evaluations@.take(i as int));
            assert(evaluations@.take(i + 1).last() == e);
        }
        if e.score.is_none() {
            out.push(e.algorithm);
        }
        i = i + 1;
    }
    proof {
        assert(evaluations@.take(i as int) =~= evaluations@);
    }
    out
}

/// Among entries with equal scores, the one whose algorithm is declared
/// earlier in the registry comes first.
pub proof fn ties_follow_registry_order(m: Metric, ranked: Seq<ComparisonEntry>, i: int, j: int)
    requires
        is_ranked(m, ranked),
        0 <= i < ranked.len(),
        0 <= j < ranked.len(),
        ranked[i].score == ranked[j].score,
        ranked[i].algorithm.index_spec() < ranked[j].algorithm.index_spec(),
    ensures
        i < j,
{
    if j < i {
        assert(ranks_before(m, ranked[j], ranked[i]));
    }
}

proof fn lemma_index_injective(a: Algorithm, b: Algorithm)
    requires
        a.index_spec() == b.index_spec(),
    ensures
        a == b,
{
}

/// The report order is fully determined: two rankings by the same metric of
/// the same entries are equal, so repeated runs give the same report.
pub proof fn ranking_is_unique(m: Metric, a: Seq<ComparisonEntry>, b: Seq<ComparisonEntry>)
    requires
        is_ranked(m, a),
        is_ranked(m, b),
        a.to_multiset() == b.to_multiset(),
    ensures
        a == b,
    decreases a.len(),
{
    to_multiset_len(a);
    to_multiset_len(b);
    if a.len() == 0 {
        assert(a =~= b);
    } else {
        to_multiset_contains(a, a[0]);
        to_multiset_contains(b, a[0]);
        to_multiset_contains(a, b[0]);
        to_multiset_contains(b, b[0]);
        assert(a.contains(a[0]));
        assert(b.contains(b[0]));
        let p = choose|p: int| 0 <= p < b.len() && b[p] == a[0];
        let q = choose|q: int| 0 <= q < a.len() && a[q] == b[0];
        if p > 0 {
            assert(ranks_before(m, b[0], b[p]));
        }
        if q > 0 {
            assert(ranks_before(m, a[0], a[q]));
        }
        lemma_index_injective(a[0].algorithm, b[0].algorithm);
        assert(a[0] == b[0]);
        to_multiset_remove(a, 0);
        to_multiset_remove(b, 0);
        assert(a.remove(0) =~= a.drop_first());
        assert(b.remove(0) =~= b.drop_first());
        assert(is_ranked(m, a.drop_first())) by {
            assert forall|i: int, j: int| 0 <= i < j < a.drop_first().len() implies ranks_before(
                m,
                #[trigger] a.drop_first()[i],
                #[trigger] a.drop_first()[j],
            ) by {
                assert(ranks_before(m, a[i + 1], a[j + 1]));
            }
        }
        assert(is_ranked(m, b.drop_first())) by {
            assert forall|i: int, j: int| 0 <= i < j < b.drop_first().len() implies ranks_before(
                m,
                #[trigger] b.drop_first()[i],
                #[trigger] b.drop_first()[j],
            ) by {
                assert(ranks_before(m, b[i + 1], b[j + 1]));
            }
        }
        ranking_is_unique(m, a.drop_first(), b.drop_first());
        assert(a =~= b) by {
            assert forall|i: int| 0 <= i < a.len() implies a[i] == b[i] by {
                if i > 0 {
                    assert(a[i] == a.drop_first()[i - 1]);
                    assert(b[i] == b.drop_first()[i - 1]);
                }
            }
        }
    }
}

/// Error metrics rank ascending; R^2 and accuracy rank descending.
pub proof fn metric_direction(m: Metric, ranked: Seq<ComparisonEntry>, i: int, j: int)
    requires
        is_ranked(m, ranked),
        0 <= i < j < ranked.len(),
    ensures
        m.higher_is_better_spec() ==> ranked[i].score >= ranked[j].score,
        !m.higher_is_better_spec() ==> ranked[i].score <= ranked[j].score,
{
    assert(ranks_before(m, ranked[i], ranked[j]));
}

/// A failed evaluation leaves out its own algorithm only: every evaluation
/// that produced a score has its entry in the ranked report.
pub proof fn failures_are_isolated(evals: Seq<Evaluation>, ranked: Seq<ComparisonEntry>, i: int)
    requires
        ranked.to_multiset() == scored(evals).to_multiset(),
        0 <= i < evals.len(),
        evals[i].score is Some,
    ensures
        ranked.contains(ComparisonEntry { algorithm: evals[i].algorithm, score: evals[i].score->Some_0 }),
{
    let e = ComparisonEntry { algorithm: evals[i].algorithm, score: evals[i].score->Some_0 };
    lemma_scored_contains(evals, i);
    vstd::seq_lib::to_multiset_contains(scored(evals), e);
    vstd::seq_lib::to_multiset_contains(ranked, e);
}

proof fn lemma_scored_contains(evals: Seq<Evaluation>, i: int)
    requires
        0 <= i < evals.len(),
        evals[i].score is Some,
    ensures
        scored(evals).contains(ComparisonEntry { algorithm: evals[i].algorithm, score: evals[i].score->Some_0 }),
    decreases evals.len(),
{
    let e = ComparisonEntry { algorithm: evals[i].algorithm, score: evals[i].score->Some_0 };
    let rest = scored(evals.drop_last());
    if i == evals.len() - 1 {
        assert(scored(evals) == rest.push(e));
        assert(scored(evals)[rest.len() as int] == e);
    } else {
        lemma_scored_contains(evals.drop_last(), i);
        let k = choose|k: int| 0 <= k < rest.len() && rest[k] == e;
        match evals.last().score {
            Some(x) => {
                assert(scored(evals)[k] == e);
            },
            None => {},
        }
    }
}

} // verus!
