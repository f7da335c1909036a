//! The whole analysis of a beam, from the model to the outcome.
//!
//! The steps, in this order: the model is checked; each span gets its
//! fixed-end forces; each joint gets its factors; the tolerance is fixed;
//! the solver balances the joints, starting from the fixed-end moments;
//! shears, reactions and deflections are worked out from the end moments at
//! which the solver stopped. The first step that fails ends the analysis.
use crate::error::{AnalysisError, Stage};
use crate::factors::{factors_of, joint_models, FactorError, JointFactors};
use crate::fef::{fef_models, FefError, FixedEndForces, FixedEndForcesModel};
use crate::fixed::{fx_abs, fx_lt, fx_max, fx_mul, Fixed, Num};
use crate::model::{Beam, ModelDefect};
use crate::post::post_process;
use crate::results::{Results, ResultsModel};
use crate::solver::{
    end_pairs, net_moment, run, run_model, solve, EndMoments, EndPair, RunModel, Solution,
    SolveError,
};
use vstd::prelude::*;

verus! {

/// When the solver counts the joints as balanced.
#[derive(Clone, Copy, Debug)]
pub enum Tolerance {
    /// The largest unbalance is smaller than this moment.
    Absolute(Fixed),
    /// The largest unbalance is smaller than this fraction of the largest
    /// fixed-end moment, and than the smallest positive moment if that is
    /// more.
    Relative(Fixed),
}

/// What the caller sets of the solver.
#[derive(Clone, Copy, Debug)]
pub struct SolverConfig {
    pub tolerance: Tolerance,
    /// The number of rounds after which the solver gives up.
    pub max_rounds: usize,
}

impl Default for SolverConfig {
    /// A millionth of the largest fixed-end moment, and fifty rounds.
    fn default() -> (r: SolverConfig)
        ensures
            r.tolerance matches Tolerance::Relative(f) && f@ == Some(1_000int),
            r.max_rounds == 50,
    {
        SolverConfig { tolerance: Tolerance::Relative(Fixed::from_raw(1_000)), max_rounds: 50 }
    }
}

/// What an analysis comes to: the model of the result of `analyze`.
pub enum Verdict {
    Converged(ResultsModel),
    InvalidBeamModel(ModelDefect),
    UnsupportedLoadSpanCombination { span: usize, load: usize },
    DegenerateJoint { joint: usize },
    NonConvergence { partial: ResultsModel, unbalance: Num },
    Overflow(Stage),
}

/// The model of a result of `analyze`.
pub open spec fn verdict(r: Result<Results, AnalysisError>) -> Verdict {
    match r {
        Ok(results) => Verdict::Converged(results@),
        Err(AnalysisError::InvalidBeamModel(d)) => Verdict::InvalidBeamModel(d),
        Err(AnalysisError::UnsupportedLoadSpanCombination { span, load }) => {
            Verdict::UnsupportedLoadSpanCombination { span, load }
        },
        Err(AnalysisError::DegenerateJoint { joint }) => Verdict::DegenerateJoint { joint },
        Err(AnalysisError::NonConvergence { partial, unbalance }) => Verdict::NonConvergence {
            partial: partial@,
            unbalance: unbalance@,
        },
        Err(AnalysisError::Overflow(stage)) => Verdict::Overflow(stage),
    }
}

/// The largest end moment, in size, among the first `upto` spans.
pub open spec fn largest_moment(fefs: Seq<FixedEndForcesModel>, upto: int) -> Num
    decreases upto,
{
    if upto <= 0 {
        Some(0int)
    } else {
        fx_max(
            fx_max(largest_moment(fefs, upto - 1), fx_abs(fefs[upto - 1].m_i)),
            fx_abs(fefs[upto - 1].m_j),
        )
    }
}

/// The moment below which the largest unbalance has to fall.
pub open spec fn tolerance_for(tolerance: Tolerance, fefs: Seq<FixedEndForcesModel>) -> Num {
    match tolerance {
        Tolerance::Absolute(t) => t@,
        Tolerance::Relative(f) => fx_max(
            fx_mul(f@, largest_moment(fefs, fefs.len() as int)),
            Some(1int),
        ),
    }
}

/// The end moments from which the solver starts: the fixed-end moments.
pub open spec fn start_pairs(fefs: Seq<FixedEndForcesModel>) -> Seq<EndPair> {
    Seq::new(fefs.len(), |s: int| EndPair { m_i: fefs[s].m_i, m_j: fefs[s].m_j })
}

/// What the solver's run comes to once its end moments are worked out into
/// an outcome.
pub open spec fn close(beam: Beam, fefs: Seq<FixedEndForcesModel>, ended: RunModel) -> Verdict {
    match ended {
        RunModel::Overflow => Verdict::Overflow(Stage::Distribution),
        RunModel::Settled { moments, rounds, unbalance } => {
            let results = beam.results(fefs, moments, rounds, unbalance);
            if results.finite() {
                Verdict::Converged(results)
            } else {
                Verdict::Overflow(Stage::Results)
            }
        },
        RunModel::Stalled { moments, rounds, unbalance } => {
            let results = beam.results(fefs, moments, rounds, unbalance);
            if results.finite() {
                Verdict::NonConvergence { partial: results, unbalance }
            } else {
                Verdict::Overflow(Stage::Results)
            }
        },
    }
}

/// What ends the analysis before the solver runs, if anything does: a
/// defect of the model, a span without fixed-end forces, a joint without
/// factors, or a tolerance that is not representable.
pub open spec fn early_end(beam: Beam, config: SolverConfig) -> Option<Verdict> {
    if beam.first_defect() is Some {
        Some(Verdict::InvalidBeamModel(beam.first_defect()->0))
    } else {
        match beam.fef_failure(0) {
            Some((span, FefError::UnsupportedLoadSpanCombination { load })) => Some(
                Verdict::UnsupportedLoadSpanCombination { span, load },
            ),
            Some((span, FefError::Overflow)) => Some(
                Verdict::Overflow(Stage::FixedEndForces { span }),
            ),
            None => match beam.factor_failure(0) {
                Some(FactorError::DegenerateJoint { joint }) => Some(
                    Verdict::DegenerateJoint { joint },
                ),
                Some(FactorError::Overflow { joint }) => Some(
                    Verdict::Overflow(Stage::Factors { joint }),
                ),
                None => if tolerance_for(config.tolerance, beam.fixed_end_forces()) is None {
                    Some(Verdict::Overflow(Stage::Tolerance))
                } else {
                    None
                },
            },
        }
    }
}

/// What the analysis of a beam comes to.
pub open spec fn analysis(beam: Beam, config: SolverConfig) -> Verdict {
    match early_end(beam, config) {
        Some(v) => v,
        None => close(
            beam,
            beam.fixed_end_forces(),
            run(
                start_pairs(beam.fixed_end_forces()),
                beam.factor_models(),
                tolerance_for(config.tolerance, beam.fixed_end_forces()),
                0,
                config.max_rounds as nat,
            ),
        ),
    }
}

/// What the solver needs of a beam.
struct Prepared {
    fefs: Vec<FixedEndForces>,
    factors: Vec<JointFactors>,
    tol: Fixed,
}

/// Checks the model and works out fixed-end forces, factors and tolerance.
fn prepare(beam: &Beam, config: &SolverConfig) -> (r: Result<Prepared, AnalysisError>)
    ensures
        match r {
            Ok(p) => {
                &&& early_end(*beam, *config) is None
                &&& beam.valid()
                &&& fef_models(p.fefs@) == beam.fixed_end_forces()
                &&& p.fefs@.len() == beam.spans@.len()
                &&& joint_models(p.factors@) == beam.factor_models()
                &&& p.factors@.len() == beam.nodes@.len()
                &&& forall|j: int|
                    0 <= j < p.factors@.len() ==> (#[trigger] p.factors@[j])@ == beam.joint_model(j)
                &&& p.tol@ == tolerance_for(config.tolerance, beam.fixed_end_forces())
            },
            Err(e) => early_end(*beam, *config) == Some(verdict(Err(e))),
        },
{
    match beam.validate() {
        Err(d) => {
            return Err(AnalysisError::InvalidBeamModel(d));
        },
        Ok(()) => {},
    }
    proof {
        beam.lemma_first_defect_none_iff_valid();
    }
    let fefs = match beam.fef_calc() {
        Ok(f) => f,
        Err(e) => {
            return Err(e);
        },
    };
    assert(fefs@.len() == fef_models(fefs@).len());
    let factors = match factors_of(beam) {
        Ok(f) => f,
        Err(FactorError::DegenerateJoint { joint }) => {
            return Err(AnalysisError::DegenerateJoint { joint });
        },
        Err(FactorError::Overflow { joint }) => {
            return Err(AnalysisError::Overflow(Stage::Factors { joint }));
        },
    };
    assert(joint_models(factors@) =~= beam.factor_models());
    let tol = effective_tolerance(&config.tolerance, &fefs);
    if !tol.is_finite() {
        return Err(AnalysisError::Overflow(Stage::Tolerance));
    }
    Ok(Prepared { fefs, factors, tol })
}

/// The largest end moment, in size, of a row of fixed-end forces.
fn largest_of(fefs: &Vec<FixedEndForces>) -> (r: Fixed)
    ensures
        r@ == largest_moment(fef_models(fefs@), fefs@.len() as int),
{
    let n = fefs.len();
    let mut largest = Fixed::zero();
    let mut s: usize = 0;
    while s < n
        invariant
            n == fefs@.len(),
            s <= n,
            largest@ == largest_moment(fef_models(fefs@), s as int),
        decreases n - s,
    {
        largest = largest.max(fefs[s].m_i.abs()).max(fefs[s].m_j.abs());
        s += 1;
    }
    largest
}

/// The moment below which the largest unbalance has to fall.
pub fn effective_tolerance(tolerance: &Tolerance, fefs: &Vec<FixedEndForces>) -> (r: Fixed)
    ensures
        r@ == tolerance_for(*tolerance, fef_models(fefs@)),
{
    match tolerance {
        Tolerance::Absolute(t) => *t,
        Tolerance::Relative(f) => f.mul(largest_of(fefs)).max(Fixed::from_raw(1)),
    }
}

/// The end moments from which the solver starts.
pub fn start_moments(fefs: &Vec<FixedEndForces>) -> (r: Vec<EndMoments>)
    ensures
        end_pairs(r@) == start_pairs(fef_models(fefs@)),
        r@.len() == fefs@.len(),
{
    let n = fefs.len();
    let mut out: Vec<EndMoments> = Vec::new();
    let mut s: usize = 0;
    while s < n
        invariant
            n == fefs@.len(),
            s <= n,
            out@.len() == s,
            forall|k: int|
                0 <= k < s ==> (#[trigger] out@[k]).m_i == fefs@[k].m_i && out@[k].m_j
                    == fefs@[k].m_j,
        decreases n - s,
    {
        out.push(EndMoments { m_i: fefs[s].m_i, m_j: fefs[s].m_j });
        s += 1;
    }
    assert(end_pairs(out@) =~= start_pairs(fef_models(fefs@)));
    out
}

/// Works the end of the solver's run out into the result of the analysis.
fn conclude(beam: &Beam, fefs: &Vec<FixedEndForces>, ended: Result<Solution, SolveError>) -> (r:
    Result<Results, AnalysisError>)
    requires
        fefs@.len() == beam.spans@.len(),
        ended matches Ok(done) ==> done.moments@.len() == beam.spans@.len(),
        ended matches Err(SolveError::NonConvergence(left)) ==> left.moments@.len()
            == beam.spans@.len(),
    ensures
        verdict(r) == close(*beam, fef_models(fefs@), run_model(ended)),
        r matches Ok(results) ==> results@.finite(),
        r matches Err(AnalysisError::NonConvergence { partial, unbalance }) ==> partial@.finite(),
        r matches Ok(results) ==> forall|j: int|
            0 <= j < beam.nodes@.len() ==> (#[trigger] results.joints@[j]).net_moment@
                == net_moment(end_pairs(ended->Ok_0.moments@), j),
        r matches Ok(results) ==> ended matches Ok(done) && results@ == beam.results(
            fef_models(fefs@),
            end_pairs(done.moments@),
            done.rounds as nat,
            done.unbalance@,
        ) && results.spans@.len() == beam.spans@.len() && results.joints@.len()
            == beam.nodes@.len(),
        r matches Err(AnalysisError::NonConvergence { partial, unbalance }) ==> ended matches Err(
            SolveError::NonConvergence(left),
        ) && partial.rounds == left.rounds && partial.unbalance@ == unbalance@ && unbalance@
            == left.unbalance@,
{
    match ended {
        Ok(done) => {
            let results = post_process(beam, fefs, &done);
            proof {
                let ends = end_pairs(done.moments@);
                assert(results@.joints.len() == results.joints@.len());
                assert(results@.joints.len() == beam.nodes@.len());
                assert forall|j: int| 0 <= j < beam.nodes@.len() implies (
                #[trigger] results.joints@[j]).net_moment@ == net_moment(ends, j) by {
                    beam.lemma_net_moment_of_results(fef_models(fefs@), ends, j);
                    assert(results@.joints[j] == results.joints@[j]@);
                }
            }
            if results.all_finite() {
                Ok(results)
            } else {
                Err(AnalysisError::Overflow(Stage::Results))
            }
        },
        Err(SolveError::NonConvergence(left)) => {
            let partial = post_process(beam, fefs, &left);
            if partial.all_finite() {
                Err(AnalysisError::NonConvergence { partial, unbalance: left.unbalance })
            } else {
                Err(AnalysisError::Overflow(Stage::Results))
            }
        },
        Err(SolveError::Overflow) => Err(AnalysisError::Overflow(Stage::Distribution)),
    }
}

/// Analyses a beam.
///
/// Gives the outcome if the solver converges within the rounds allowed.
/// Where the rounds run out, the outcome reached is handed back inside
/// `NonConvergence`.
pub fn analyze(beam: &Beam, config: &SolverConfig) -> (r: Result<Results, AnalysisError>)
    ensures
        verdict(r) == analysis(*beam, *config),
        r matches Ok(results) ==> {
            &&& beam.valid()
            &&& results@.finite()
            &&& results.spans@.len() == beam.spans@.len()
            &&& results.joints@.len() == beam.nodes@.len()
            &&& fx_lt(
                results.unbalance@,
                tolerance_for(config.tolerance, beam.fixed_end_forces()),
            )
            &&& forall|j: int|
                0 <= j < beam.nodes@.len() && !beam.nodes@[j].clamped() ==> fx_lt(
                    fx_abs((#[trigger] results.joints@[j]).net_moment@),
                    tolerance_for(config.tolerance, beam.fixed_end_forces()),
                )
        },
        r matches Err(AnalysisError::NonConvergence { partial, unbalance }) ==> {
            &&& beam.valid()
            &&& partial@.finite()
            &&& partial.rounds == config.max_rounds
            &&& partial.unbalance@ == unbalance@
            &&& !fx_lt(unbalance@, tolerance_for(config.tolerance, beam.fixed_end_forces()))
        },
{
    let p = match prepare(beam, config) {
        Ok(p) => p,
        Err(e) => {
            return Err(e);
        },
    };
    let start = start_moments(&p.fefs);
    let ended = solve(start, &p.factors, p.tol, config.max_rounds);
    let r = conclude(beam, &p.fefs, ended);
    proof {
        if r is Ok {
            let results = r->Ok_0;
            let ends = end_pairs(ended->Ok_0.moments@);
            assert forall|j: int|
                0 <= j < beam.nodes@.len() && !beam.nodes@[j].clamped() implies fx_lt(
                fx_abs((#[trigger] results.joints@[j]).net_moment@),
                p.tol@,
            ) by {
                assert(p.factors@[j]@ == beam.joint_model(j));
                assert(fx_lt(fx_abs(net_moment(ends, j)), p.tol@));
            }
        }
    }
    r
}

} // verus!
