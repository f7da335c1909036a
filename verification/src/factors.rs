//! Stiffness, distribution and carry-over factors of the joints.
//!
//! At joint `j` meet the `j` end of span `j - 1`, called the joint's left
//! member, and the `i` end of span `j`, its right member. Each member has a
//! stiffness factor: `4EI/L`, or `3EI/L` if the span's far end releases, or
//! zero if the member's own end is the hinged side of an internal hinge. A
//! member's distribution factor is its share of the joint's total stiffness;
//! at a clamped joint every share is zero. Its carry-over factor is the part
//! of a balancing moment that reaches the span's far end: one half, or
//! nothing if the far end releases.
//!
//! Which side of an internal hinge is hinged is said by the spans' own end
//! conditions. In every other respect a joint marked as an internal hinge
//! is balanced like any joint that is not clamped.
use crate::error::{AnalysisError, Stage};
use crate::fixed::{
    fx_add, fx_div, fx_le, fx_one, fx_scale, fx_zero, in_range, trunc_div, Fixed, Num, SCALE,
};
use crate::model::{positive, Beam, Span, SupportCondition};
use vstd::prelude::*;

verus! {

/// The factors of one span end at its joint.
pub struct MemberModel {
    pub span: usize,
    pub stiffness: Num,
    pub distribution: Num,
    pub carry_over: Num,
}

/// The factors of one joint.
pub struct JointModel {
    pub fixed: bool,
    pub left: Option<MemberModel>,
    pub right: Option<MemberModel>,
}

/// The factors of one span end at its joint.
#[derive(Clone, Copy, Debug)]
pub struct MemberFactor {
    /// The span that the member belongs to.
    pub span: usize,
    pub stiffness: Fixed,
    pub distribution: Fixed,
    pub carry_over: Fixed,
}

/// The factors of one joint.
#[derive(Clone, Copy, Debug)]
pub struct JointFactors {
    /// Whether the joint is clamped.
    pub fixed: bool,
    /// The `j` end of the span to the left, if there is one.
    pub left: Option<MemberFactor>,
    /// The `i` end of the span to the right, if there is one.
    pub right: Option<MemberFactor>,
}

/// Why the factors of a valid beam could not be given.
#[derive(Clone, Copy, Debug, PartialEq, Eq, Structural)]
pub enum FactorError {
    /// A joint that is not clamped has no stiffness to share out.
    DegenerateJoint { joint: usize },
    /// A factor of a joint is not representable.
    Overflow { joint: usize },
}

impl View for MemberFactor {
    type V = MemberModel;

    open spec fn view(&self) -> MemberModel {
        MemberModel {
            span: self.span,
            stiffness: self.stiffness@,
            distribution: self.distribution@,
            carry_over: self.carry_over@,
        }
    }
}

impl View for JointFactors {
    type V = JointModel;

    open spec fn view(&self) -> JointModel {
        JointModel {
            fixed: self.fixed,
            left: match self.left {
                Some(m) => Some(m@),
                None => None,
            },
            right: match self.right {
                Some(m) => Some(m@),
                None => None,
            },
        }
    }
}

/// The models of a row of joints.
pub open spec fn joint_models(factors: Seq<JointFactors>) -> Seq<JointModel> {
    Seq::new(factors.len(), |j: int| factors[j]@)
}

/// One half.
pub open spec fn fx_half() -> Num {
    Some(500_000_000int)
}

impl MemberModel {
    /// Whether every factor of the member is representable.
    pub open spec fn finite(self) -> bool {
        self.stiffness is Some && self.distribution is Some && self.carry_over is Some
    }
}

/// The distribution factor of a member; zero where there is no member.
pub open spec fn share_or_zero(member: Option<MemberModel>) -> Num {
    match member {
        Some(m) => m.distribution,
        None => fx_zero(),
    }
}

impl JointModel {
    /// Whether every factor of the joint is representable.
    pub open spec fn finite(self) -> bool {
        &&& self.left matches Some(m) ==> m.finite()
        &&& self.right matches Some(m) ==> m.finite()
    }

    /// Whether the joint's distribution factors are shares: none is
    /// negative and together they make one at most; at a clamped joint each
    /// is zero, and at any other joint they make one but for what rounding
    /// takes, which is a billionth at most.
    pub open spec fn shares_out(self) -> bool {
        &&& fx_le(fx_zero(), share_or_zero(self.left))
        &&& fx_le(fx_zero(), share_or_zero(self.right))
        &&& fx_le(fx_add(share_or_zero(self.left), share_or_zero(self.right)), fx_one())
        &&& self.fixed ==> share_or_zero(self.left) == fx_zero() && share_or_zero(self.right)
            == fx_zero()
        &&& !self.fixed ==> fx_le(
            Some(SCALE - 1),
            fx_add(share_or_zero(self.left), share_or_zero(self.right)),
        )
    }
}

impl Span {
    /// Whether the span's end `end` (0 for `i`, 1 for `j`) is the hinged
    /// side of an internal hinge.
    pub open spec fn end_hinged(&self, end: int) -> bool {
        self.support_conditions@[end] == SupportCondition::InternalHinge
    }

    /// Whether the span's end `end` releases.
    pub open spec fn end_released(&self, end: int) -> bool {
        self.support_conditions@[end].releases()
    }

    /// Stiffness factor of the span at its end `near`.
    pub open spec fn stiffness_at(&self, near: int) -> Num {
        if self.end_hinged(near) {
            fx_zero()
        } else if self.end_released(1 - near) {
            fx_div(fx_scale(self.ei_value@, 3), self.length@)
        } else {
            fx_div(fx_scale(self.ei_value@, 4), self.length@)
        }
    }

    /// Carry-over factor from the span's end `near` to its other end.
    pub open spec fn carry_over_from(&self, near: int) -> Num {
        if self.end_released(1 - near) {
            fx_zero()
        } else {
            fx_half()
        }
    }

    fn stiffness(&self, near: usize) -> (r: Fixed)
        requires
            self.support_conditions@.len() == 2,
            near < 2,
        ensures
            r@ == self.stiffness_at(near as int),
    {
        let hinged = match self.support_conditions[near] {
            SupportCondition::InternalHinge => true,
            _ => false,
        };
        if hinged {
            Fixed::zero()
        } else if self.support_conditions[1 - near].is_released() {
            self.ei_value.scale(3).div(self.length)
        } else {
            self.ei_value.scale(4).div(self.length)
        }
    }

    fn carry_over(&self, near: usize) -> (r: Fixed)
        requires
            self.support_conditions@.len() == 2,
            near < 2,
        ensures
            r@ == self.carry_over_from(near as int),
    {
        if self.support_conditions[1 - near].is_released() {
            Fixed::zero()
        } else {
            Fixed::from_raw(500_000_000)
        }
    }
}

impl Beam {
    /// Stiffness factor of the left member of joint `j`; zero if the joint
    /// has none.
    pub open spec fn left_stiffness(&self, j: int) -> Num {
        if 1 <= j <= self.spans@.len() {
            self.spans@[j - 1].stiffness_at(1)
        } else {
            fx_zero()
        }
    }

    /// Stiffness factor of the right member of joint `j`; zero if the joint
    /// has none.
    pub open spec fn right_stiffness(&self, j: int) -> Num {
        if 0 <= j < self.spans@.len() {
            self.spans@[j].stiffness_at(0)
        } else {
            fx_zero()
        }
    }

    /// The stiffness factors of all members of joint `j` together.
    pub open spec fn total_stiffness(&self, j: int) -> Num {
        fx_add(self.left_stiffness(j), self.right_stiffness(j))
    }

    /// The share of joint `j` that a member of the given stiffness takes.
    pub open spec fn share(&self, j: int, stiffness: Num) -> Num {
        if self.nodes@[j].clamped() {
            fx_zero()
        } else {
            fx_div(stiffness, self.total_stiffness(j))
        }
    }

    /// The factors of joint `j`.
    pub open spec fn joint_model(&self, j: int) -> JointModel {
        JointModel {
            fixed: self.nodes@[j].clamped(),
            left: if 1 <= j <= self.spans@.len() {
                Some(
                    MemberModel {
                        span: (j - 1) as usize,
                        stiffness: self.left_stiffness(j),
                        distribution: self.share(j, self.left_stiffness(j)),
                        carry_over: self.spans@[j - 1].carry_over_from(1),
                    },
                )
            } else {
                None
            },
            right: if 0 <= j < self.spans@.len() {
                Some(
                    MemberModel {
                        span: j as usize,
                        stiffness: self.right_stiffness(j),
                        distribution: self.share(j, self.right_stiffness(j)),
                        carry_over: self.spans@[j].carry_over_from(0),
                    },
                )
            } else {
                None
            },
        }
    }

    /// What keeps joint `j` from having factors, if anything does: a total
    /// stiffness that is not representable; for a joint that is not
    /// clamped, a total stiffness of zero; a share that is not
    /// representable.
    pub open spec fn joint_failure(&self, j: int) -> Option<FactorError> {
        if self.total_stiffness(j) is None {
            Some(FactorError::Overflow { joint: j as usize })
        } else if !self.nodes@[j].clamped() && !positive(self.total_stiffness(j)) {
            Some(FactorError::DegenerateJoint { joint: j as usize })
        } else if !self.joint_model(j).finite() {
            Some(FactorError::Overflow { joint: j as usize })
        } else {
            None
        }
    }

    /// The failure of the first joint from `from` on that has one.
    pub open spec fn factor_failure(&self, from: int) -> Option<FactorError>
        decreases self.nodes@.len() - from,
    {
        if from < 0 || from >= self.nodes@.len() {
            None
        } else {
            match self.joint_failure(from) {
                Some(e) => Some(e),
                None => self.factor_failure(from + 1),
            }
        }
    }

    /// No joint from `from` on fails exactly when `factor_failure` finds
    /// nothing.
    pub proof fn lemma_factor_failure(&self, from: int)
        requires
            0 <= from <= self.nodes@.len(),
        ensures
            self.factor_failure(from) is None <==> forall|j: int|
                from <= j < self.nodes@.len() ==> #[trigger] self.joint_failure(j) is None,
        decreases self.nodes@.len() - from,
    {
        if from < self.nodes@.len() {
            self.lemma_factor_failure(from + 1);
            if self.factor_failure(from) is None {
                assert forall|j: int| from <= j < self.nodes@.len() implies #[trigger] self.joint_failure(
                    j,
                ) is None by {
                    if j > from {
                    }
                }
            } else if self.joint_failure(from) is Some {
            }
        }
    }

    /// The stiffness factors of a valid beam are not negative, as far as
    /// they are representable.
    pub proof fn lemma_stiffness_not_negative(&self, j: int)
        requires
            self.valid(),
            0 <= j < self.nodes@.len(),
        ensures
            self.left_stiffness(j) matches Some(k) ==> k >= 0,
            self.right_stiffness(j) matches Some(k) ==> k >= 0,
    {
        if 1 <= j {
            let span = self.spans@[j - 1];
            assert(span.valid());
            lemma_stiffness_sign(span.ei_value@, span.length@, 3);
            lemma_stiffness_sign(span.ei_value@, span.length@, 4);
        }
        if j < self.spans@.len() {
            let span = self.spans@[j];
            assert(span.valid());
            lemma_stiffness_sign(span.ei_value@, span.length@, 3);
            lemma_stiffness_sign(span.ei_value@, span.length@, 4);
        }
    }

    /// Of the factors of a valid beam: at a clamped joint every
    /// distribution factor is zero; the hinged side of an internal hinge
    /// has no stiffness and takes no share; every distribution factor lies
    /// in `0..=1`, and those of one joint add up to one at most; two
    /// members of the same stiffness take one half each.
    pub proof fn lemma_joint_shares(&self, j: int)
        requires
            self.valid(),
            0 <= j < self.nodes@.len(),
            self.joint_failure(j) is None,
        ensures
            self.nodes@[j].clamped() ==> {
                &&& self.share(j, self.left_stiffness(j)) == fx_zero()
                &&& self.share(j, self.right_stiffness(j)) == fx_zero()
            },
            1 <= j && self.spans@[j - 1].end_hinged(1) ==> {
                &&& self.left_stiffness(j) == fx_zero()
                &&& self.share(j, self.left_stiffness(j)) == fx_zero()
            },
            j < self.spans@.len() && self.spans@[j].end_hinged(0) ==> {
                &&& self.right_stiffness(j) == fx_zero()
                &&& self.share(j, self.right_stiffness(j)) == fx_zero()
            },
            fx_le(fx_zero(), self.share(j, self.left_stiffness(j))),
            fx_le(fx_zero(), self.share(j, self.right_stiffness(j))),
            fx_le(
                fx_add(
                    self.share(j, self.left_stiffness(j)),
                    self.share(j, self.right_stiffness(j)),
                ),
                fx_one(),
            ),
            !self.nodes@[j].clamped() ==> fx_le(
                Some(SCALE - 1),
                fx_add(
                    self.share(j, self.left_stiffness(j)),
                    self.share(j, self.right_stiffness(j)),
                ),
            ),
            !self.nodes@[j].clamped() && self.left_stiffness(j) == self.right_stiffness(j) ==> {
                &&& self.share(j, self.left_stiffness(j)) == fx_half()
                &&& self.share(j, self.right_stiffness(j)) == fx_half()
            },
    {
        self.lemma_stiffness_not_negative(j);
        if !self.nodes@[j].clamped() {
            let a = self.left_stiffness(j)->0;
            let b = self.right_stiffness(j)->0;
            // A joint without a member on one side has zero stiffness
            // there, whose share is representable.
            assert(self.share(j, self.left_stiffness(j)) is Some) by {
                if 1 <= j {
                } else {
                    assert(in_range(0 * SCALE));
                }
            }
            assert(self.share(j, self.right_stiffness(j)) is Some) by {
                if j < self.spans@.len() {
                } else {
                    assert(in_range(0 * SCALE));
                }
            }
            lemma_shares(a, b);
        }
    }
}

/// `EI` times a small count, divided by `L`, is not negative.
proof fn lemma_stiffness_sign(ei: Num, length: Num, k: int)
    requires
        positive(ei),
        positive(length),
        k > 0,
    ensures
        fx_div(fx_scale(ei, k), length) matches Some(s) ==> s >= 0,
{
    let e = ei->0;
    let l = length->0;
    assert(e * k > 0) by (nonlinear_arith)
        requires
            e > 0,
            k > 0,
    ;
    if in_range(e * k) {
        let ek = e * k;
        assert(ek * SCALE > 0) by (nonlinear_arith)
            requires
                ek > 0,
                SCALE == 1_000_000_000,
        ;
        let n = ek * SCALE;
        assert(n / l >= 0) by (nonlinear_arith)
            requires
                n > 0,
                l > 0,
        ;
    }
}

/// The shares of two stiffnesses `a` and `b` in their sum.
proof fn lemma_shares(a: int, b: int)
    requires
        a >= 0,
        b >= 0,
        a + b > 0,
        in_range(a * SCALE),
        in_range(b * SCALE),
    ensures
        0 <= trunc_div(a * SCALE, a + b),
        0 <= trunc_div(b * SCALE, a + b),
        trunc_div(a * SCALE, a + b) + trunc_div(b * SCALE, a + b) <= SCALE,
        trunc_div(a * SCALE, a + b) + trunc_div(b * SCALE, a + b) >= SCALE - 1,
        a == b ==> trunc_div(a * SCALE, a + b) == 500_000_000,
{
    let t = a + b;
    let x = a * SCALE;
    let y = b * SCALE;
    assert(x >= 0 && y >= 0 && x + y == t * SCALE) by (nonlinear_arith)
        requires
            a >= 0,
            b >= 0,
            x == a * SCALE,
            y == b * SCALE,
            t == a + b,
            SCALE == 1_000_000_000,
    ;
    let p = x / t;
    let q = y / t;
    assert(p >= 0 && q >= 0 && p * t <= x && q * t <= y) by (nonlinear_arith)
        requires
            x >= 0,
            y >= 0,
            t > 0,
            p == x / t,
            q == y / t,
    ;
    assert(p + q <= SCALE) by (nonlinear_arith)
        requires
            p * t <= x,
            q * t <= y,
            x + y == t * SCALE,
            t > 0,
    ;
    assert(x < (p + 1) * t && y < (q + 1) * t) by (nonlinear_arith)
        requires
            x >= 0,
            y >= 0,
            t > 0,
            p == x / t,
            q == y / t,
    ;
    assert(p + q >= SCALE - 1) by (nonlinear_arith)
        requires
            x < (p + 1) * t,
            y < (q + 1) * t,
            x + y == t * SCALE,
            t > 0,
    ;
    if a == b {
        assert(x == t * 500_000_000) by (nonlinear_arith)
            requires
                x == a * SCALE,
                t == a + a,
                SCALE == 1_000_000_000,
        ;
        assert(x / t == 500_000_000) by (nonlinear_arith)
            requires
                x == t * 500_000_000,
                t > 0,
        ;
    }
}

/// The factors of one member of joint `j`.
fn member_of(beam: &Beam, j: usize, span: usize, near: usize, total: Fixed) -> (r: MemberFactor)
    requires
        beam.valid(),
        j < beam.nodes@.len(),
        span < beam.spans@.len(),
        (near == 1 && span + 1 == j) || (near == 0 && span == j),
        total@ == beam.total_stiffness(j as int),
    ensures
        near == 1 ==> Some(r@) == beam.joint_model(j as int).left,
        near == 0 ==> Some(r@) == beam.joint_model(j as int).right,
{
    assert(beam.spans@[span as int].valid());
    let stiffness = beam.spans[span].stiffness(near);
    let distribution = if beam.nodes[j].is_clamped() {
        Fixed::zero()
    } else {
        stiffness.div(total)
    };
    MemberFactor { span, stiffness, distribution, carry_over: beam.spans[span].carry_over(near) }
}

/// The factors of joint `j`, or what keeps it from having any.
fn joint_of(beam: &Beam, j: usize) -> (r: Result<JointFactors, FactorError>)
    requires
        beam.valid(),
        j < beam.nodes@.len(),
    ensures
        match r {
            Ok(f) => beam.joint_failure(j as int) is None && f@ == beam.joint_model(j as int),
            Err(e) => beam.joint_failure(j as int) == Some(e),
        },
{
    let n = beam.spans.len();
    let left_k = if j >= 1 {
        assert(beam.spans@[j - 1].valid());
        beam.spans[j - 1].stiffness(1)
    } else {
        Fixed::zero()
    };
    let right_k = if j < n {
        assert(beam.spans@[j as int].valid());
        beam.spans[j].stiffness(0)
    } else {
        Fixed::zero()
    };
    let total = left_k.add(right_k);
    if !total.is_finite() {
        return Err(FactorError::Overflow { joint: j });
    }
    let fixed = beam.nodes[j].is_clamped();
    if !fixed && !Fixed::zero().lt(total) {
        return Err(FactorError::DegenerateJoint { joint: j });
    }
    let left = if j >= 1 {
        Some(member_of(beam, j, j - 1, 1, total))
    } else {
        None
    };
    let right = if j < n {
        Some(member_of(beam, j, j, 0, total))
    } else {
        None
    };
    let f = JointFactors { fixed, left, right };
    if f.all_finite() {
        Ok(f)
    } else {
        Err(FactorError::Overflow { joint: j })
    }
}

impl MemberFactor {
    fn all_finite(&self) -> (b: bool)
        ensures
            b == self@.finite(),
    {
        self.stiffness.is_finite() && self.distribution.is_finite() && self.carry_over.is_finite()
    }
}

impl JointFactors {
    /// Whether every factor of the joint is representable.
    pub fn all_finite(&self) -> (b: bool)
        ensures
            b == self@.finite(),
    {
        let left = match &self.left {
            Some(m) => m.all_finite(),
            None => true,
        };
        let right = match &self.right {
            Some(m) => m.all_finite(),
            None => true,
        };
        left && right
    }
}

/// The factors of every joint of a valid beam, from the left.
pub(crate) fn factors_of(beam: &Beam) -> (r: Result<Vec<JointFactors>, FactorError>)
    requires
        beam.valid(),
    ensures
        match r {
            Ok(f) => {
                &&& beam.factor_failure(0) is None
                &&& f@.len() == beam.nodes@.len()
                &&& forall|j: int|
                    0 <= j < f@.len() ==> (#[trigger] f@[j])@ == beam.joint_model(j)
                &&& forall|j: int|
                    0 <= j < f@.len() ==> (#[trigger] f@[j])@.finite() && f@[j]@.shares_out()
            },
            Err(e) => beam.factor_failure(0) == Some(e),
        },
{
    let count = beam.nodes.len();
    let mut out: Vec<JointFactors> = Vec::new();
    let mut j: usize = 0;
    while j < count
        invariant
            beam.valid(),
            count == beam.nodes@.len(),
            j <= count,
            out@.len() == j,
            beam.factor_failure(0) == beam.factor_failure(j as int),
            forall|k: int| 0 <= k < j ==> (#[trigger] out@[k])@ == beam.joint_model(k),
            forall|k: int| 0 <= k < j ==> (#[trigger] out@[k])@.finite() && out@[k]@.shares_out(),
        decreases count - j,
    {
        match joint_of(beam, j) {
            Ok(f) => {
                proof {
                    beam.lemma_joint_shares(j as int);
                    assert(in_range(0 * SCALE));
                }
                out.push(f);
            },
            Err(e) => {
                return Err(e);
            },
        }
        j += 1;
    }
    Ok(out)
}

impl Beam {
    /// The hinged side of an internal hinge takes no share of its joint,
    /// and nothing is carried to it from the other end of its span.
    pub proof fn lemma_hinged_side_is_idle(&self, s: int)
        requires
            self.valid(),
            0 <= s < self.spans@.len(),
            self.joint_failure(s) is None,
            self.joint_failure(s + 1) is None,
        ensures
            self.spans@[s].end_hinged(1) ==> {
                &&& share_or_zero(self.joint_model(s + 1).left) == fx_zero()
                &&& self.joint_model(s).right matches Some(near) && near.carry_over == fx_zero()
            },
            self.spans@[s].end_hinged(0) ==> {
                &&& share_or_zero(self.joint_model(s).right) == fx_zero()
                &&& self.joint_model(s + 1).left matches Some(far) && far.carry_over == fx_zero()
            },
    {
        assert(self.spans@[s].valid());
        self.lemma_joint_shares(s);
        self.lemma_joint_shares(s + 1);
    }

    /// The factors of every joint.
    pub open spec fn factor_models(&self) -> Seq<JointModel> {
        Seq::new(self.nodes@.len(), |j: int| self.joint_model(j))
    }
}

/// The factors of every joint of the beam, from the left: for each joint
/// its members with their stiffness, distribution and carry-over factors.
///
/// Fails if the beam breaks its invariant, and else at the first joint
/// without factors.
pub fn compute_factors(beam: &Beam) -> (r: Result<Vec<JointFactors>, AnalysisError>)
    ensures
        match r {
            Ok(f) => {
                &&& beam.valid()
                &&& beam.factor_failure(0) is None
                &&& joint_models(f@) == beam.factor_models()
                &&& forall|j: int|
                    0 <= j < f@.len() ==> (#[trigger] f@[j])@.finite() && f@[j]@.shares_out()
            },
            Err(AnalysisError::InvalidBeamModel(d)) => beam.first_defect() == Some(d),
            Err(AnalysisError::DegenerateJoint { joint }) => beam.valid() && beam.factor_failure(0)
                == Some(FactorError::DegenerateJoint { joint }),
            Err(AnalysisError::Overflow(Stage::Factors { joint })) => beam.valid()
                && beam.factor_failure(0) == Some(FactorError::Overflow { joint }),
            Err(_) => false,
        },
{
    match beam.validate() {
        Err(d) => {
            return Err(AnalysisError::InvalidBeamModel(d));
        },
        Ok(()) => {},
    }
    match factors_of(beam) {
        Ok(f) => {
            assert(joint_models(f@) =~= beam.factor_models());
            Ok(f)
        },
        Err(FactorError::DegenerateJoint { joint }) => Err(AnalysisError::DegenerateJoint { joint }),
        Err(FactorError::Overflow { joint }) => Err(AnalysisError::Overflow(Stage::Factors { joint })),
    }
}

} // verus!
