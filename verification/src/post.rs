//! From balanced end moments to shears, reactions and deflections.
//!
//! Each span starts from its fixed-end forces and is corrected for what the
//! distribution added to its end moments. With `d_i` and `d_j` the moments
//! added at the two ends, the shears change by `(d_i + d_j)/L`, downwards
//! at `i` and upwards at `j`, the mid-span moment by `(d_i - d_j)/2` and the
//! mid-span deflection by `(d_i - d_j)L^2/(16EI)`. A joint's reaction is
//! the sum of the shears of the span ends that meet there and of the load
//! applied at the joint.
use crate::fef::{fef_models, FixedEndForces, FixedEndForcesModel};
use crate::fixed::{fx_add, fx_div, fx_mul, fx_quot, fx_scale, fx_sub, fx_zero, Fixed, Num};
use crate::model::Beam;
use crate::results::{
    JointResult, JointResultModel, Results, ResultsModel, SpanResult, SpanResultModel,
};
use crate::solver::{end_pairs, net_moment, EndMoments, EndPair, Solution};
use vstd::prelude::*;

verus! {

/// The forces of a span of length `length` and rigidity `ei` whose end
/// moments went from those of `fef` to `end`.
pub open spec fn span_result(length: Num, ei: Num, fef: FixedEndForcesModel, end: EndPair) -> SpanResultModel {
    let d_i = fx_sub(end.m_i, fef.m_i);
    let d_j = fx_sub(end.m_j, fef.m_j);
    let couple = fx_div(fx_add(d_i, d_j), length);
    let sway = fx_sub(d_i, d_j);
    SpanResultModel {
        m_i: end.m_i,
        m_j: end.m_j,
        v_i: fx_sub(fef.v_i, couple),
        v_j: fx_add(fef.v_j, couple),
        m_mid: fx_add(fef.m_mid, fx_quot(sway, 2)),
        defl_mid: fx_add(
            fef.defl_mid,
            fx_div(fx_mul(fx_mul(sway, length), length), fx_scale(ei, 16)),
        ),
    }
}

/// The forces at joint `j`, which carries the load `load`.
pub open spec fn joint_result(spans: Seq<SpanResultModel>, load: Num, j: int) -> JointResultModel {
    let left_v = if 1 <= j <= spans.len() {
        spans[j - 1].v_j
    } else {
        fx_zero()
    };
    let right_v = if 0 <= j < spans.len() {
        spans[j].v_i
    } else {
        fx_zero()
    };
    let left_m = if 1 <= j <= spans.len() {
        spans[j - 1].m_j
    } else {
        fx_zero()
    };
    let right_m = if 0 <= j < spans.len() {
        spans[j].m_i
    } else {
        fx_zero()
    };
    JointResultModel {
        reaction: fx_add(fx_add(left_v, right_v), load),
        net_moment: fx_add(left_m, right_m),
    }
}

impl Beam {
    /// The forces of every span.
    pub open spec fn span_results(
        &self,
        fefs: Seq<FixedEndForcesModel>,
        ends: Seq<EndPair>,
    ) -> Seq<SpanResultModel> {
        Seq::new(
            self.spans@.len(),
            |s: int| span_result(self.spans@[s].length@, self.spans@[s].ei_value@, fefs[s], ends[s]),
        )
    }

    /// The forces at every joint.
    pub open spec fn joint_results(&self, spans: Seq<SpanResultModel>) -> Seq<JointResultModel> {
        Seq::new(self.nodes@.len(), |j: int| joint_result(spans, self.nodes@[j].load(), j))
    }

    /// The outcome of the analysis whose solver stopped at the end moments
    /// `ends`.
    pub open spec fn results(
        &self,
        fefs: Seq<FixedEndForcesModel>,
        ends: Seq<EndPair>,
        rounds: nat,
        unbalance: Num,
    ) -> ResultsModel {
        ResultsModel {
            spans: self.span_results(fefs, ends),
            joints: self.joint_results(self.span_results(fefs, ends)),
            rounds,
            unbalance,
        }
    }

    /// The net moment that the outcome names for a joint is the sum of the
    /// end moments that meet there.
    pub proof fn lemma_net_moment_of_results(
        &self,
        fefs: Seq<FixedEndForcesModel>,
        ends: Seq<EndPair>,
        j: int,
    )
        requires
            ends.len() == self.spans@.len(),
            0 <= j < self.nodes@.len(),
        ensures
            self.joint_results(self.span_results(fefs, ends))[j].net_moment == net_moment(ends, j),
    {
    }
}

fn span_record(length: Fixed, ei: Fixed, fef: &FixedEndForces, end: &EndMoments) -> (r: SpanResult)
    ensures
        r@ == span_result(length@, ei@, fef@, end@),
{
    let d_i = end.m_i.sub(fef.m_i);
    let d_j = end.m_j.sub(fef.m_j);
    let couple = d_i.add(d_j).div(length);
    let sway = d_i.sub(d_j);
    SpanResult {
        m_i: end.m_i,
        m_j: end.m_j,
        v_i: fef.v_i.sub(couple),
        v_j: fef.v_j.add(couple),
        m_mid: fef.m_mid.add(sway.quot(2)),
        defl_mid: fef.defl_mid.add(sway.mul(length).mul(length).div(ei.scale(16))),
    }
}

/// The models of a row of span records.
pub open spec fn span_models(spans: Seq<SpanResult>) -> Seq<SpanResultModel> {
    Seq::new(spans.len(), |s: int| spans[s]@)
}

fn joint_record(spans: &Vec<SpanResult>, load: Fixed, j: usize) -> (r: JointResult)
    ensures
        r@ == joint_result(span_models(spans@), load@, j as int),
{
    let n = spans.len();
    let zero = Fixed::zero();
    let (left_v, left_m) = if 1 <= j && j <= n {
        (spans[j - 1].v_j, spans[j - 1].m_j)
    } else {
        (zero, zero)
    };
    let (right_v, right_m) = if j < n {
        (spans[j].v_i, spans[j].m_i)
    } else {
        (zero, zero)
    };
    JointResult { reaction: left_v.add(right_v).add(load), net_moment: left_m.add(right_m) }
}

/// The shears, reactions and deflections that belong to the end moments at
/// which the solver stopped.
///
/// A record may hold numbers that are not representable.
pub fn post_process(beam: &Beam, fefs: &Vec<FixedEndForces>, solution: &Solution) -> (r: Results)
    requires
        fefs@.len() == beam.spans@.len(),
        solution.moments@.len() == beam.spans@.len(),
    ensures
        r@ == beam.results(
            fef_models(fefs@),
            end_pairs(solution.moments@),
            solution.rounds as nat,
            solution.unbalance@,
        ),
{
    let n = beam.spans.len();
    let ghost fm = fef_models(fefs@);
    let ghost ends = end_pairs(solution.moments@);
    let mut spans: Vec<SpanResult> = Vec::new();
    let mut s: usize = 0;
    while s < n
        invariant
            n == beam.spans@.len(),
            fefs@.len() == n,
            solution.moments@.len() == n,
            fm == fef_models(fefs@),
            ends == end_pairs(solution.moments@),
            s <= n,
            spans@.len() == s,
            forall|k: int|
                0 <= k < s ==> (#[trigger] spans@[k])@ == span_result(
                    beam.spans@[k].length@,
                    beam.spans@[k].ei_value@,
                    fm[k],
                    ends[k],
                ),
        decreases n - s,
    {
        let span = &beam.spans[s];
        let record = span_record(span.length, span.ei_value, &fefs[s], &solution.moments[s]);
        spans.push(record);
        s += 1;
    }
    assert(span_models(spans@) =~= beam.span_results(fm, ends));
    let count = beam.nodes.len();
    let mut joints: Vec<JointResult> = Vec::new();
    let mut j: usize = 0;
    while j < count
        invariant
            count == beam.nodes@.len(),
            span_models(spans@) == beam.span_results(fm, ends),
            j <= count,
            joints@.len() == j,
            forall|k: int|
                0 <= k < j ==> (#[trigger] joints@[k])@ == joint_result(
                    beam.span_results(fm, ends),
                    beam.nodes@[k].load(),
                    k,
                ),
        decreases count - j,
    {
        let record = joint_record(&spans, beam.nodes[j].load_value(), j);
        joints.push(record);
        j += 1;
    }
    let r = Results { spans, joints, rounds: solution.rounds, unbalance: solution.unbalance };
    assert(r@.spans =~= beam.span_results(fm, ends));
    assert(r@.joints =~= beam.joint_results(beam.span_results(fm, ends)));
    r
}

} // verus!
