use vstd::prelude::*;

use crate::algorithm::Algorithm;
use crate::error::AutoMlError;
use crate::folds::{check_row_order, fold_bounds, fold_test, fold_train, is_row_order, Fold};
use crate::ranking::{failed, failed_algorithms, is_ranked, rank, scored, ComparisonEntry, Evaluation};
use crate::settings::{active_set, Settings};

verus! {

/// The work of one comparison run: every active algorithm, in registry
/// order, is trained and evaluated on every fold.
#[derive(Clone, Debug)]
pub struct ComparisonPlan {
    pub algorithms: Vec<Algorithm>,
    pub folds: Vec<Fold>,
}

/// The outcome of a comparison run: the ranked entries, the algorithms left
/// out by configuration, and those left out because they failed.
#[derive(Clone, Debug)]
pub struct ComparisonReport {
    pub entries: Vec<ComparisonEntry>,
    pub skipped: Vec<Algorithm>,
    pub failed: Vec<Algorithm>,
}

/// Whether the plan holds the folds of cross-validation over `order`.
pub open spec fn folds_of(folds: Seq<Fold>, order: Seq<usize>, k: nat) -> bool {
    &&& folds.len() == k
    &&& forall|f: int|
        0 <= f < k ==> (#[trigger] folds[f]).test@ == fold_test(order, k, f as nat)
            && folds[f].train@ == fold_train(order, k, f as nat)
}

/// Appends `order[lo..hi]` to `out`.
fn extend_from_range(out: &mut Vec<usize>, order: &Vec<usize>, lo: usize, hi: usize)
    requires
        lo <= hi <= order@.len(),
    ensures
        final(out)@ == old(out)@ + order@.subrange(lo as int, hi as int),
{
    let mut i: usize = lo;
    while i < hi
        invariant
            lo <= i <= hi,
            hi <= order@.len(),
            out@ == old(out)@ + order@.subrange(lo as int, i as int),
        decreases hi - i,
    {
        out.push(order[i]);
        proof {
            assert(order@.subrange(lo as int, i + 1) =~= order@.subrange(lo as int, i as int).push(
                order@[i as int],
            ));
        }
        i = i + 1;
    }
}

/// Training and held-out rows of fold `f` when `order` is split into `k` folds.
pub fn cross_validation_fold(order: &Vec<usize>, k: usize, f: usize) -> (r: Fold)
    requires
        1 <= k <= order@.len(),
        f < k,
    ensures
        r.test@ == fold_test(order@, k as nat, f as nat),
        r.train@ == fold_train(order@, k as nat, f as nat),
{
    let (start, end) = fold_bounds(order.len(), k, f);
    let mut test: Vec<usize> = Vec::new();
    extend_from_range(&mut test, order, start, end);
    let mut train: Vec<usize> = Vec::new();
    extend_from_range(&mut train, order, 0, start);
    extend_from_range(&mut train, order, end, order.len());
    proof {
        assert(test@ =~= fold_test(order@, k as nat, f as nat));
        assert(train@ =~= fold_train(order@, k as nat, f as nat));
    }
    Fold { train, test }
}

/// Plans a comparison run over the rows listed in `order` (every row once,
/// shuffled or not). Fails fast, before any training: an unset metric first,
/// then a fold count below one, then fewer rows than folds, then an order
/// that does not list every row once.
pub fn plan_comparison(settings: &Settings, order: &Vec<usize>) -> (r: Result<
    ComparisonPlan,
    AutoMlError,
>)
    ensures
        !settings.sort_by.is_set_spec() ==> r == Err::<ComparisonPlan, AutoMlError>(
            AutoMlError::UnsetMetric,
        ),
        settings.sort_by.is_set_spec() && settings.number_of_folds < 1 ==> r == Err::<
            ComparisonPlan,
            AutoMlError,
        >(AutoMlError::InvalidFoldCount),
        settings.sort_by.is_set_spec() && settings.number_of_folds >= 1 && order@.len()
            < settings.number_of_folds ==> r == Err::<ComparisonPlan, AutoMlError>(
            AutoMlError::InsufficientData,
        ),
        settings.sort_by.is_set_spec() && 1 <= settings.number_of_folds <= order@.len()
            && !is_row_order(order@, order@.len()) ==> r == Err::<ComparisonPlan, AutoMlError>(
            AutoMlError::InvalidRowOrder,
        ),
        settings.sort_by.is_set_spec() && 1 <= settings.number_of_folds <= order@.len()
            && is_row_order(order@, order@.len()) ==> r is Ok,
        r is Ok ==> (forall|a: Algorithm|
            r->Ok_0.algorithms@.contains(a) <==> active_set(*settings).contains(a)),
        r is Ok ==> (forall|i: int, j: int|
            0 <= i < j < r->Ok_0.algorithms@.len() ==> (#[trigger] r->Ok_0.algorithms@[i]).index_spec()
                < (#[trigger] r->Ok_0.algorithms@[j]).index_spec()),
        r is Ok ==> folds_of(r->Ok_0.folds@, order@, settings.number_of_folds as nat),
{
    if !settings.sort_by.is_set() {
        return Err(AutoMlError::UnsetMetric);
    }
    let k = settings.number_of_folds;
    if k < 1 {
        return Err(AutoMlError::InvalidFoldCount);
    }
    if order.len() < k {
        return Err(AutoMlError::InsufficientData);
    }
    if !check_row_order(order, order.len()) {
        return Err(AutoMlError::InvalidRowOrder);
    }
    let algorithms = settings.active_algorithms();
    let mut folds: Vec<Fold> = Vec::new();
    let mut f: usize = 0;
    while f < k
        invariant
            1 <= k <= order@.len(),
            f <= k,
            folds@.len() == f,
            forall|g: int|
                0 <= g < f ==> (#[trigger] folds@[g]).test@ == fold_test(order@, k as nat, g as nat)
                    && folds@[g].train@ == fold_train(order@, k as nat, g as nat),
        decreases k - f,
    {
        let fold = cross_validation_fold(order, k, f);
        folds.push(fold);
        f = f + 1;
    }
    Ok(ComparisonPlan { algorithms, folds })
}

/// Builds the report of a comparison run from the evaluations of its active
/// algorithms. An unset metric is refused.
pub fn build_report(settings: &Settings, evaluations: &Vec<Evaluation>) -> (r: Result<
    ComparisonReport,
    AutoMlError,
>)
    ensures
        !settings.sort_by.is_set_spec() <==> r == Err::<ComparisonReport, AutoMlError>(
            AutoMlError::UnsetMetric,
        ),
        settings.sort_by.is_set_spec() ==> r is Ok,
        r is Ok ==> r->Ok_0.entries@.to_multiset() == scored(evaluations@).to_multiset(),
        r is Ok ==> is_ranked(settings.sort_by, r->Ok_0.entries@),
        r is Ok ==> r->Ok_0.skipped@ == settings.skiplist@,
        r is Ok ==> r->Ok_0.failed@ == failed(evaluations@),
{
    match rank(settings.sort_by, evaluations) {
        Err(e) => Err(e),
        Ok(entries) => {
            let skipped = copy_algorithms(&settings.skiplist);
            Ok(ComparisonReport { entries, skipped, failed: failed_algorithms(evaluations) })
        },
    }
}

fn copy_algorithms(v: &Vec<Algorithm>) -> (r: Vec<Algorithm>)
    ensures
        r@ == v@,
{
    let mut out: Vec<Algorithm> = Vec::new();
    let mut i: usize = 0;
    while i < v.len()
        invariant
            i <= v@.len(),
            out@ == v@.take(i as int),
        decreases v@.len() - i,
    {
        out.push(v[i]);
        proof {
            assert(v@.take(i + 1) =~= v@.take(i as int).push(v@[i as int]));
        }
        i = i + 1;
    }
    proof {
        assert(v@.take(i as int) =~= v@);
    }
    out
}

} // verus!
