//! What an analysis hands back: one record for each span and one for each
//! joint, in the sign convention of the fixed-end forces.
use crate::fixed::{Fixed, Num};
use vstd::prelude::*;

verus! {

/// The forces of one span.
pub struct SpanResultModel {
    pub m_i: Num,
    pub m_j: Num,
    pub v_i: Num,
    pub v_j: Num,
    pub m_mid: Num,
    pub defl_mid: Num,
}

/// The forces at one joint.
pub struct JointResultModel {
    pub reaction: Num,
    pub net_moment: Num,
}

/// The outcome of an analysis.
pub struct ResultsModel {
    pub spans: Seq<SpanResultModel>,
    pub joints: Seq<JointResultModel>,
    pub rounds: nat,
    pub unbalance: Num,
}

/// The forces of one span: the moments and the upward shears at its two
/// ends, the moment at mid-span (positive when sagging) and the deflection
/// at mid-span (positive downwards, in the unit of the span's length).
#[derive(Clone, Copy, Debug)]
pub struct SpanResult {
    pub m_i: Fixed,
    pub m_j: Fixed,
    pub v_i: Fixed,
    pub v_j: Fixed,
    pub m_mid: Fixed,
    pub defl_mid: Fixed,
}

/// The forces at one joint: the upward force that holds the joint, and the
/// sum of the end moments that meet there, which a clamped joint takes up
/// and which is close to zero at every other joint of a converged analysis.
#[derive(Clone, Copy, Debug)]
pub struct JointResult {
    pub reaction: Fixed,
    pub net_moment: Fixed,
}

/// The outcome of an analysis: a record for each span and for each joint,
/// the number of rounds that the solver made, and the largest unbalance
/// that it left at a joint that is not clamped.
#[derive(Clone, Debug)]
pub struct Results {
    pub spans: Vec<SpanResult>,
    pub joints: Vec<JointResult>,
    pub rounds: usize,
    pub unbalance: Fixed,
}

impl View for SpanResult {
    type V = SpanResultModel;

    open spec fn view(&self) -> SpanResultModel {
        SpanResultModel {
            m_i: self.m_i@,
            m_j: self.m_j@,
            v_i: self.v_i@,
            v_j: self.v_j@,
            m_mid: self.m_mid@,
            defl_mid: self.defl_mid@,
        }
    }
}

impl View for JointResult {
    type V = JointResultModel;

    open spec fn view(&self) -> JointResultModel {
        JointResultModel { reaction: self.reaction@, net_moment: self.net_moment@ }
    }
}

impl View for Results {
    type V = ResultsModel;

    open spec fn view(&self) -> ResultsModel {
        ResultsModel {
            spans: Seq::new(self.spans@.len(), |s: int| self.spans@[s]@),
            joints: Seq::new(self.joints@.len(), |j: int| self.joints@[j]@),
            rounds: self.rounds as nat,
            unbalance: self.unbalance@,
        }
    }
}

impl SpanResultModel {
    /// Whether every force of the span is representable.
    pub open spec fn finite(self) -> bool {
        &&& self.m_i is Some
        &&& self.m_j is Some
        &&& self.v_i is Some
        &&& self.v_j is Some
        &&& self.m_mid is Some
        &&& self.defl_mid is Some
    }
}

impl JointResultModel {
    /// Whether both forces at the joint are representable.
    pub open spec fn finite(self) -> bool {
        self.reaction is Some && self.net_moment is Some
    }
}

impl ResultsModel {
    /// Whether every number of the outcome is representable.
    pub open spec fn finite(self) -> bool {
        &&& forall|s: int| 0 <= s < self.spans.len() ==> (#[trigger] self.spans[s]).finite()
        &&& forall|j: int| 0 <= j < self.joints.len() ==> (#[trigger] self.joints[j]).finite()
        &&& self.unbalance is Some
    }
}

impl SpanResult {
    /// Whether every force of the span is representable.
    pub fn all_finite(&self) -> (b: bool)
        ensures
            b == self@.finite(),
    {
        self.m_i.is_finite() && self.m_j.is_finite() && self.v_i.is_finite()
            && self.v_j.is_finite() && self.m_mid.is_finite() && self.defl_mid.is_finite()
    }
}

impl JointResult {
    /// Whether both forces at the joint are representable.
    pub fn all_finite(&self) -> (b: bool)
        ensures
            b == self@.finite(),
    {
        self.reaction.is_finite() && self.net_moment.is_finite()
    }
}

impl Results {
    /// Whether every number of the outcome is representable.
    pub fn all_finite(&self) -> (b: bool)
        ensures
            b == self@.finite(),
    {
        let mut s: usize = 0;
        while s < self.spans.len()
            invariant
                s <= self.spans@.len(),
                forall|k: int| 0 <= k < s ==> (#[trigger] self@.spans[k]).finite(),
            decreases self.spans@.len() - s,
        {
            if !self.spans[s].all_finite() {
                assert(!self@.spans[s as int].finite());
                return false;
            }
            s += 1;
        }
        let mut j: usize = 0;
        while j < self.joints.len()
            invariant
                j <= self.joints@.len(),
                forall|k: int| 0 <= k < self@.spans.len() ==> (#[trigger] self@.spans[k]).finite(),
                forall|k: int| 0 <= k < j ==> (#[trigger] self@.joints[k]).finite(),
            decreases self.joints@.len() - j,
        {
            if !self.joints[j].all_finite() {
                assert(!self@.joints[j as int].finite());
                return false;
            }
            j += 1;
        }
        self.unbalance.is_finite()
    }
}

} // verus!
