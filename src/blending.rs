use vstd::prelude::*;

use crate::algorithm::Algorithm;
use crate::comparison::ComparisonReport;
use crate::error::AutoMlError;
use crate::settings::{active_set, FinalModel, Settings, PERMILLE};

verus! {

/// Rows `[0, training_end)` train the base models, rows
/// `[training_end, testing_end)` train the meta-learner on the base models'
/// predictions; the rest is not used.
#[derive(PartialEq, Eq, Structural, Clone, Copy, Debug)]
pub struct BlendingSplit {
    pub training_end: usize,
    pub testing_end: usize,
}

/// Number of rows that a fraction, in thousandths, takes out of `n`.
pub open spec fn share(n: nat, fraction: nat) -> nat {
    n * fraction / (PERMILLE as nat)
}

/// How `n` rows are split for blending: fractions adding up to more than the
/// whole are refused, and so is a split that leaves either part empty.
pub open spec fn split_spec(n: nat, training: nat, testing: nat) -> Result<BlendingSplit, AutoMlError> {
    if training + testing > PERMILLE {
        Err(AutoMlError::InvalidBlendingFractions)
    } else if share(n, training) == 0 || share(n, testing) == 0 {
        Err(AutoMlError::InsufficientData)
    } else {
        Ok(
            BlendingSplit {
                training_end: share(n, training) as usize,
                testing_end: (share(n, training) + share(n, testing)) as usize,
            },
        )
    }
}

/// Splits `n` rows for blending.
pub fn blending_split(n: usize, training: u32, testing: u32) -> (r: Result<
    BlendingSplit,
    AutoMlError,
>)
    ensures
        r == split_spec(n as nat, training as nat, testing as nat),
        r is Ok ==> 0 < r->Ok_0.training_end < r->Ok_0.testing_end <= n,
{
    if training > PERMILLE || testing > PERMILLE - training {
        return Err(AutoMlError::InvalidBlendingFractions);
    }
    let n_wide = n as u128;
    proof {
        assert(n_wide * (training as u128) <= n_wide * 1000) by (nonlinear_arith)
            requires
                training <= 1000,
        ;
        assert(n_wide * (testing as u128) <= n_wide * 1000) by (nonlinear_arith)
            requires
                testing <= 1000,
        ;
    }
    let train_rows = n_wide * (training as u128) / 1000;
    let test_rows = n_wide * (testing as u128) / 1000;
    proof {
        assert(train_rows + test_rows <= n_wide) by (nonlinear_arith)
            requires
                train_rows == n_wide * (training as u128) / 1000,
                test_rows == n_wide * (testing as u128) / 1000,
                training + testing <= 1000,
        ;
    }
    if train_rows == 0 || test_rows == 0 {
        return Err(AutoMlError::InsufficientData);
    }
    Ok(
        BlendingSplit {
            training_end: train_rows as usize,
            testing_end: (train_rows + test_rows) as usize,
        },
    )
}

/// Turns the predictions of the base models, one vector per model, into the
/// meta-learner's input: row `i` holds the prediction of every base model for
/// row `i`, in the order of the models.
pub fn stack_predictions<T: Copy>(base: &Vec<Vec<T>>, rows: usize) -> (r: Vec<Vec<T>>)
    requires
        forall|j: int| 0 <= j < base@.len() ==> (#[trigger] base@[j])@.len() == rows,
    ensures
        r@.len() == rows,
        forall|i: int| 0 <= i < rows ==> (#[trigger] r@[i])@.len() == base@.len(),
        forall|i: int, j: int|
            0 <= i < rows && 0 <= j < base@.len() ==> (#[trigger] r@[i])@[j] == (
            #[trigger] base@[j])@[i],
{
    let mut out: Vec<Vec<T>> = Vec::new();
    let mut i: usize = 0;
    while i < rows
        invariant
            i <= rows,
            forall|j: int| 0 <= j < base@.len() ==> (#[trigger] base@[j])@.len() == rows,
            out@.len() == i,
            forall|p: int| 0 <= p < i ==> (#[trigger] out@[p])@.len() == base@.len(),
            forall|p: int, j: int|
                0 <= p < i && 0 <= j < base@.len() ==> (#[trigger] out@[p])@[j] == (
                #[trigger] base@[j])@[p],
        decreases rows - i,
    {
        let mut row: Vec<T> = Vec::new();
        let mut j: usize = 0;
        while j < base.len()
            invariant
                i < rows,
                forall|q: int| 0 <= q < base@.len() ==> (#[trigger] base@[q])@.len() == rows,
                j <= base@.len(),
                row@.len() == j,
                forall|q: int| 0 <= q < j ==> row@[q] == (#[trigger] base@[q])@[i as int],
            decreases base@.len() - j,
        {
            row.push(base[j][i]);
            j = j + 1;
        }
        out.push(row);
        i = i + 1;
    }
    out
}

/// What the final model is built from.
#[derive(Clone, Debug)]
pub enum FinalPlan {
    /// Retrain the best-ranked algorithm on every row
    Best { algorithm: Algorithm },
    /// Train the base algorithms on the first part of the rows, and the
    /// meta-learner on their predictions for the second part
    Blending { meta_learner: Algorithm, base: Vec<Algorithm>, split: BlendingSplit },
}

/// Plans the final model for a dataset of `n` rows from the comparison report.
/// No final model is asked for, or none can be chosen when every algorithm
/// failed: `NoFinalModel`. A blending split is checked as `blending_split`
/// checks it.
pub fn plan_final_model(settings: &Settings, report: &ComparisonReport, n: usize) -> (r: Result<
    FinalPlan,
    AutoMlError,
>)
    ensures
        settings.final_model_approach == FinalModel::Nothing ==> r == Err::<
            FinalPlan,
            AutoMlError,
        >(AutoMlError::NoFinalModel),
        settings.final_model_approach == FinalModel::Best && report.entries@.len() == 0 ==> r
            == Err::<FinalPlan, AutoMlError>(AutoMlError::NoFinalModel),
        settings.final_model_approach == FinalModel::Best && report.entries@.len() > 0 ==> r
            is Ok && r->Ok_0 == (FinalPlan::Best { algorithm: report.entries@[0].algorithm }),
        settings.final_model_approach is Blending ==> match r {
            Ok(FinalPlan::Blending { meta_learner, base, split }) => {
                &&& meta_learner == settings.final_model_approach->algorithm
                &&& (forall|a: Algorithm| base@.contains(a) <==> active_set(*settings).contains(a))
                &&& (forall|i: int, j: int|
                    0 <= i < j < base@.len() ==> (#[trigger] base@[i]).index_spec()
                        < (#[trigger] base@[j]).index_spec())
                &&& split_spec(
                    n as nat,
                    settings.final_model_approach->meta_training_fraction as nat,
                    settings.final_model_approach->meta_testing_fraction as nat,
                ) == Ok::<BlendingSplit, AutoMlError>(split)
            },
            Ok(_) => false,
            Err(e) => split_spec(
                n as nat,
                settings.final_model_approach->meta_training_fraction as nat,
                settings.final_model_approach->meta_testing_fraction as nat,
            ) == Err::<BlendingSplit, AutoMlError>(e),
        },
{
    match settings.final_model_approach {
        FinalModel::Nothing => Err(AutoMlError::NoFinalModel),
        FinalModel::Best => {
            if report.entries.len() == 0 {
                Err(AutoMlError::NoFinalModel)
            } else {
                Ok(FinalPlan::Best { algorithm: report.entries[0].algorithm })
            }
        },
        FinalModel::Blending { algorithm, meta_training_fraction, meta_testing_fraction } => {
            match blending_split(n, meta_training_fraction, meta_testing_fraction) {
                Err(e) => Err(e),
                Ok(split) => Ok(
                    FinalPlan::Blending {
                        meta_learner: algorithm,
                        base: settings.active_algorithms(),
                        split,
                    },
                ),
            }
        },
    }
}

/// The meta-learner sees exactly one value per active algorithm in each row:
/// `base` is the base list of a blending plan, and `rows` what
/// `stack_predictions` makes of the base models' outputs.
pub proof fn meta_rows_hold_one_value_per_active_algorithm<T>(
    settings: Settings,
    base: Seq<Algorithm>,
    rows: Seq<Seq<T>>,
)
    requires
        forall|a: Algorithm| base.contains(a) <==> active_set(settings).contains(a),
        forall|i: int, j: int|
            0 <= i < j < base.len() ==> (#[trigger] base[i]).index_spec()
                < (#[trigger] base[j]).index_spec(),
        forall|i: int| 0 <= i < rows.len() ==> (#[trigger] rows[i]).len() == base.len(),
    ensures
        active_set(settings).finite(),
        forall|i: int| 0 <= i < rows.len() ==> (#[trigger] rows[i]).len() == active_set(settings).len(),
{
    assert(base.no_duplicates()) by {
        assert forall|i: int, j: int|
            0 <= i < base.len() && 0 <= j < base.len() && i != j implies base[i] != base[j] by {
            if i < j {
                assert(base[i].index_spec() < base[j].index_spec());
            } else {
                assert(base[j].index_spec() < base[i].index_spec());
            }
        }
    }
    base.unique_seq_to_set();
    assert(base.to_set() =~= active_set(settings));
}

} // verus!
