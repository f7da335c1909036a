//! The moment distribution solver.
//!
//! The state of the solver is one pair of end moments for each span. The
//! unbalance of a joint is the negated sum of the end moments that meet
//! there. One round looks at every joint as the round finds it: a joint that
//! is not clamped and whose unbalance exceeds the tolerance in size gives
//! each of its members the unbalance times the member's distribution
//! factor, which brings the joint into balance, and sends that balancing
//! moment times the member's carry-over factor to the far end of the
//! member's span. All balancing moments of a round are taken from the state
//! at its start and all carried moments arrive at its end, so a round does
//! not depend on the order in which the joints are visited.
//!
//! The solver has converged once the largest unbalance among the joints that
//! are not clamped is smaller than the tolerance. An unbalance of just the
//! tolerance is neither balanced nor counted as settled: a run whose largest
//! unbalance comes to rest there makes no further change and ends when its
//! rounds run out.
use crate::factors::{
    joint_models, share_or_zero, JointFactors, JointModel, MemberFactor, MemberModel,
};
use crate::fixed::{
    fx_abs, fx_add, fx_lt, fx_max, fx_mul, fx_neg, fx_sub, fx_zero, num_bounded, trunc_div,
    Fixed, Num, SCALE,
};
use vstd::prelude::*;

verus! {

/// The two end moments of a span.
pub struct EndPair {
    pub m_i: Num,
    pub m_j: Num,
}

/// The two end moments of a span.
#[derive(Clone, Copy, Debug)]
pub struct EndMoments {
    pub m_i: Fixed,
    pub m_j: Fixed,
}

impl View for EndMoments {
    type V = EndPair;

    open spec fn view(&self) -> EndPair {
        EndPair { m_i: self.m_i@, m_j: self.m_j@ }
    }
}

/// The models of a row of end moments.
pub open spec fn end_pairs(m: Seq<EndMoments>) -> Seq<EndPair> {
    Seq::new(m.len(), |s: int| m[s]@)
}

/// Sum of the end moments that meet at joint `j`.
pub open spec fn net_moment(m: Seq<EndPair>, j: int) -> Num {
    let left = if 1 <= j <= m.len() {
        m[j - 1].m_j
    } else {
        fx_zero()
    };
    let right = if 0 <= j < m.len() {
        m[j].m_i
    } else {
        fx_zero()
    };
    fx_add(left, right)
}

/// Unbalance of joint `j`: what has to be added to its end moments for the
/// joint to be in equilibrium.
pub open spec fn unbalance(m: Seq<EndPair>, j: int) -> Num {
    fx_neg(net_moment(m, j))
}

/// The balancing moment that a member receives from a joint of unbalance
/// `u`: nothing at a clamped joint or where the unbalance does not exceed
/// the tolerance, else the unbalance times the distribution factor.
pub open spec fn share_of(u: Num, fixed: bool, tol: Num, member: Option<MemberModel>) -> Num {
    match member {
        Some(mem) => if !fixed && fx_lt(tol, fx_abs(u)) {
            fx_mul(u, mem.distribution)
        } else {
            fx_zero()
        },
        None => fx_zero(),
    }
}

/// What a member's balancing moment sends to the far end of its span.
pub open spec fn carry_of(share: Num, member: Option<MemberModel>) -> Num {
    match member {
        Some(mem) => fx_mul(share, mem.carry_over),
        None => fx_zero(),
    }
}

/// The end moments of span `s` after one round.
pub open spec fn next_pair(m: Seq<EndPair>, f: Seq<JointModel>, tol: Num, s: int) -> EndPair {
    let near = share_of(unbalance(m, s), f[s].fixed, tol, f[s].right);
    let far = share_of(unbalance(m, s + 1), f[s + 1].fixed, tol, f[s + 1].left);
    EndPair {
        m_i: fx_add(fx_add(m[s].m_i, near), carry_of(far, f[s + 1].left)),
        m_j: fx_add(fx_add(m[s].m_j, far), carry_of(near, f[s].right)),
    }
}

/// The state after one round.
pub open spec fn round(m: Seq<EndPair>, f: Seq<JointModel>, tol: Num) -> Seq<EndPair> {
    Seq::new(m.len(), |s: int| next_pair(m, f, tol, s))
}

/// The largest unbalance, in size, among the first `upto` joints that are
/// not clamped; zero if there is no such joint.
pub open spec fn worst_unbalance(m: Seq<EndPair>, f: Seq<JointModel>, upto: int) -> Num
    decreases upto,
{
    if upto <= 0 {
        fx_zero()
    } else {
        let before = worst_unbalance(m, f, upto - 1);
        if f[upto - 1].fixed {
            before
        } else {
            fx_max(before, fx_abs(unbalance(m, upto - 1)))
        }
    }
}

/// Whether every end moment is representable.
pub open spec fn finite_moments(m: Seq<EndPair>) -> bool {
    forall|s: int| 0 <= s < m.len() ==> (#[trigger] m[s]).m_i is Some && m[s].m_j is Some
}

/// Whether every end moment is one that a number can have.
pub open spec fn bounded_moments(m: Seq<EndPair>) -> bool {
    forall|s: int|
        0 <= s < m.len() ==> num_bounded((#[trigger] m[s]).m_i) && num_bounded(m[s].m_j)
}

/// Whether every factor of every joint is representable.
pub open spec fn finite_factors(f: Seq<JointModel>) -> bool {
    forall|j: int| 0 <= j < f.len() ==> (#[trigger] f[j]).finite()
}

/// Whether the state is in equilibrium within the tolerance.
pub open spec fn settled(m: Seq<EndPair>, f: Seq<JointModel>, tol: Num) -> bool {
    fx_lt(worst_unbalance(m, f, f.len() as int), tol)
}

/// How a run of the solver ends.
pub enum RunModel {
    /// In equilibrium within the tolerance after `rounds` rounds.
    Settled { moments: Seq<EndPair>, rounds: nat, unbalance: Num },
    /// Still out of balance by `unbalance` when the rounds ran out.
    Stalled { moments: Seq<EndPair>, rounds: nat, unbalance: Num },
    /// An end moment, an unbalance or the tolerance is not representable.
    Overflow,
}

/// The run of the solver from the state `m`, reached after `used` rounds,
/// with `ceiling` rounds allowed in all.
pub open spec fn run(m: Seq<EndPair>, f: Seq<JointModel>, tol: Num, used: nat, ceiling: nat) -> RunModel
    decreases ceiling - used,
{
    let worst = worst_unbalance(m, f, f.len() as int);
    if !finite_moments(m) || worst is None || tol is None {
        RunModel::Overflow
    } else if fx_lt(worst, tol) {
        RunModel::Settled { moments: m, rounds: used, unbalance: worst }
    } else if used >= ceiling {
        RunModel::Stalled { moments: m, rounds: used, unbalance: worst }
    } else {
        run(round(m, f, tol), f, tol, used + 1, ceiling)
    }
}

/// What two members with the shares `a` and `b` take of `x`, each rounded
/// towards zero, has the sign of `x` and falls short of `x` by less than
/// two billionths and a billionth of `x`.
proof fn lemma_shares_take_nearly_all(x: int, a: int, b: int)
    requires
        0 <= x,
        0 <= a,
        0 <= b,
        SCALE - 1 <= a + b <= SCALE,
    ensures
        0 <= x - (trunc_div(x * a, SCALE as int) + trunc_div(x * b, SCALE as int)),
        (x - (trunc_div(x * a, SCALE as int) + trunc_div(x * b, SCALE as int))) * SCALE < x + 2
            * SCALE,
        trunc_div((-x) * a, SCALE as int) == -trunc_div(x * a, SCALE as int),
        trunc_div((-x) * b, SCALE as int) == -trunc_div(x * b, SCALE as int),
{
    let s = SCALE as int;
    let xa = x * a;
    let xb = x * b;
    assert(xa >= 0 && xb >= 0 && xa + xb == x * (a + b) && (-x) * a == -xa && (-x) * b == -xb)
        by (nonlinear_arith)
        requires
            0 <= x,
            0 <= a,
            0 <= b,
            xa == x * a,
            xb == x * b,
    ;
    let p = xa / s;
    let q = xb / s;
    assert(p * s <= xa < (p + 1) * s && q * s <= xb < (q + 1) * s && p >= 0 && q >= 0)
        by (nonlinear_arith)
        requires
            xa >= 0,
            xb >= 0,
            s == 1_000_000_000,
            p == xa / s,
            q == xb / s,
    ;
    assert(trunc_div(xa, s) == p);
    assert(trunc_div(xb, s) == q);
    assert(x * (a + b) <= x * s && x * (a + b) >= x * s - x) by (nonlinear_arith)
        requires
            0 <= x,
            s - 1 <= a + b <= s,
    ;
    assert((p + q) * s <= x * s && (x - (p + q)) * s < x + 2 * s) by (nonlinear_arith)
        requires
            p * s <= xa,
            q * s <= xb,
            xa < (p + 1) * s,
            xb < (q + 1) * s,
            xa + xb == x * (a + b),
            x * (a + b) <= x * s,
            x * (a + b) >= x * s - x,
    ;
    assert(p + q <= x) by (nonlinear_arith)
        requires
            (p + q) * s <= x * s,
            s == 1_000_000_000,
    ;
}

/// Balancing brings a joint into equilibrium, but for what rounding takes.
/// Of a joint that is balanced, the balancing moments of the two members
/// together have the sign of the unbalance and fall short of it by less
/// than two billionths and a billionth of the unbalance.
pub proof fn lemma_balancing_restores_equilibrium(u: Num, tol: Num, joint: JointModel)
    requires
        !joint.fixed,
        joint.shares_out(),
        fx_lt(tol, fx_abs(u)),
    ensures
        fx_add(
            share_of(u, joint.fixed, tol, joint.left),
            share_of(u, joint.fixed, tol, joint.right),
        ) matches Some(given) ==> u matches Some(x) && {
            &&& x >= 0 ==> 0 <= x - given && (x - given) * SCALE < x + 2 * SCALE
            &&& x <= 0 ==> 0 <= given - x && (given - x) * SCALE < 2 * SCALE - x
        },
{
    let x = u->0;
    let a = share_or_zero(joint.left)->0;
    let b = share_or_zero(joint.right)->0;
    let dl = share_of(u, joint.fixed, tol, joint.left);
    let dr = share_of(u, joint.fixed, tol, joint.right);
    if fx_add(dl, dr) is Some {
        assert(dl == Some(trunc_div(x * a, SCALE as int))) by {
            if joint.left is None {
                assert(x * 0 == 0);
            }
        }
        assert(dr == Some(trunc_div(x * b, SCALE as int))) by {
            if joint.right is None {
                assert(x * 0 == 0);
            }
        }
        if x >= 0 {
            lemma_shares_take_nearly_all(x, a, b);
        } else {
            lemma_shares_take_nearly_all(-x, a, b);
            assert((-(-x)) * a == x * a);
            assert((-(-x)) * b == x * b);
        }
    }
}

/// In a settled state every joint that is not clamped is in equilibrium
/// within the tolerance: the end moments that meet there add up to less
/// than the tolerance in size.
pub proof fn lemma_settled_joints_in_equilibrium(
    m: Seq<EndPair>,
    f: Seq<JointModel>,
    tol: Num,
    upto: int,
)
    requires
        0 <= upto <= f.len(),
        fx_lt(worst_unbalance(m, f, upto), tol),
    ensures
        forall|j: int|
            0 <= j < upto && !f[j].fixed ==> fx_lt(fx_abs(#[trigger] net_moment(m, j)), tol)
                && fx_lt(fx_abs(unbalance(m, j)), tol),
    decreases upto,
{
    if upto > 0 {
        let before = worst_unbalance(m, f, upto - 1);
        if !f[upto - 1].fixed {
            assert(before is Some);
        }
        lemma_settled_joints_in_equilibrium(m, f, tol, upto - 1);
    }
}

/// Whether no joint is out of balance by more than the tolerance, so that a
/// round balances none.
pub open spec fn at_rest(m: Seq<EndPair>, f: Seq<JointModel>, tol: Num) -> bool {
    forall|j: int|
        0 <= j < f.len() ==> (#[trigger] f[j]).fixed || !fx_lt(tol, fx_abs(unbalance(m, j)))
}

/// A round that balances no joint changes no end moment.
pub proof fn lemma_round_at_rest_changes_nothing(m: Seq<EndPair>, f: Seq<JointModel>, tol: Num)
    requires
        f.len() == m.len() + 1,
        at_rest(m, f, tol),
        finite_factors(f),
        bounded_moments(m),
    ensures
        round(m, f, tol) == m,
{
    assert forall|s: int| 0 <= s < m.len() implies #[trigger] next_pair(m, f, tol, s) == m[s] by {
        let near = share_of(unbalance(m, s), f[s].fixed, tol, f[s].right);
        let far = share_of(unbalance(m, s + 1), f[s + 1].fixed, tol, f[s + 1].left);
        assert(f[s].finite());
        assert(f[s + 1].finite());
        assert(near == fx_zero());
        assert(far == fx_zero());
        assert(carry_of(near, f[s].right) == fx_zero());
        assert(carry_of(far, f[s + 1].left) == fx_zero());
        assert(num_bounded(m[s].m_i) && num_bounded(m[s].m_j));
    }
    assert(round(m, f, tol) =~= m);
}

/// A round leaves a settled state as it is: no end moment changes.
pub proof fn lemma_round_keeps_settled_state(m: Seq<EndPair>, f: Seq<JointModel>, tol: Num)
    requires
        f.len() == m.len() + 1,
        settled(m, f, tol),
        finite_factors(f),
        bounded_moments(m),
    ensures
        round(m, f, tol) == m,
{
    lemma_settled_joints_in_equilibrium(m, f, tol, f.len() as int);
    lemma_round_at_rest_changes_nothing(m, f, tol);
}

/// A `j` end that takes no share of its joint, and to which nothing is
/// carried, keeps its moment through a round. The hinged side of an
/// internal hinge is such an end, so that no moment crosses the hinge.
pub proof fn lemma_idle_j_end_keeps_its_moment(
    m: Seq<EndPair>,
    f: Seq<JointModel>,
    tol: Num,
    s: int,
)
    requires
        0 <= s < m.len(),
        f.len() == m.len() + 1,
        num_bounded(m[s].m_j),
        unbalance(m, s + 1) is Some,
        share_or_zero(f[s + 1].left) == fx_zero(),
        share_of(unbalance(m, s), f[s].fixed, tol, f[s].right) is Some,
        f[s].right is Some ==> f[s].right->0.carry_over == fx_zero(),
    ensures
        next_pair(m, f, tol, s).m_j == m[s].m_j,
{
    let near = share_of(unbalance(m, s), f[s].fixed, tol, f[s].right);
    assert(unbalance(m, s + 1)->0 * 0 == 0);
    assert(near->0 * 0 == 0);
}

/// An `i` end that takes no share of its joint, and to which nothing is
/// carried, keeps its moment through a round.
pub proof fn lemma_idle_i_end_keeps_its_moment(
    m: Seq<EndPair>,
    f: Seq<JointModel>,
    tol: Num,
    s: int,
)
    requires
        0 <= s < m.len(),
        f.len() == m.len() + 1,
        num_bounded(m[s].m_i),
        unbalance(m, s) is Some,
        share_or_zero(f[s].right) == fx_zero(),
        share_of(unbalance(m, s + 1), f[s + 1].fixed, tol, f[s + 1].left) is Some,
        f[s + 1].left is Some ==> f[s + 1].left->0.carry_over == fx_zero(),
    ensures
        next_pair(m, f, tol, s).m_i == m[s].m_i,
{
    let far = share_of(unbalance(m, s + 1), f[s + 1].fixed, tol, f[s + 1].left);
    assert(unbalance(m, s)->0 * 0 == 0);
    assert(far->0 * 0 == 0);
}

/// The largest unbalance is not negative.
pub proof fn lemma_worst_unbalance_not_negative(m: Seq<EndPair>, f: Seq<JointModel>, upto: int)
    ensures
        worst_unbalance(m, f, upto) matches Some(w) ==> w >= 0,
    decreases upto,
{
    if upto > 0 {
        lemma_worst_unbalance_not_negative(m, f, upto - 1);
    }
}

/// One more round after convergence changes every end moment by less than
/// the tolerance.
pub proof fn lemma_round_after_convergence(m: Seq<EndPair>, f: Seq<JointModel>, tol: Num)
    requires
        f.len() == m.len() + 1,
        settled(m, f, tol),
        finite_factors(f),
        bounded_moments(m),
        finite_moments(m),
    ensures
        forall|s: int|
            0 <= s < m.len() ==> fx_lt(
                fx_abs(fx_sub((#[trigger] round(m, f, tol)[s]).m_i, m[s].m_i)),
                tol,
            ) && fx_lt(fx_abs(fx_sub(round(m, f, tol)[s].m_j, m[s].m_j)), tol),
{
    lemma_round_keeps_settled_state(m, f, tol);
    lemma_worst_unbalance_not_negative(m, f, f.len() as int);
    assert forall|s: int| 0 <= s < m.len() implies fx_lt(
        fx_abs(fx_sub((#[trigger] round(m, f, tol)[s]).m_i, m[s].m_i)),
        tol,
    ) && fx_lt(fx_abs(fx_sub(round(m, f, tol)[s].m_j, m[s].m_j)), tol) by {
        assert(m[s].m_i is Some && m[s].m_j is Some);
    }
}

/// The end moments that the solver stopped at, the rounds it took and the
/// largest unbalance that is left.
#[derive(Debug)]
pub struct Solution {
    pub moments: Vec<EndMoments>,
    pub rounds: usize,
    pub unbalance: Fixed,
}

/// Why the solver did not converge.
#[derive(Debug)]
pub enum SolveError {
    /// The rounds ran out; the state reached is handed back.
    NonConvergence(Solution),
    /// An end moment, an unbalance or the tolerance is not representable.
    Overflow,
}

/// The model of a result of `solve`.
pub open spec fn run_model(r: Result<Solution, SolveError>) -> RunModel {
    match r {
        Ok(done) => RunModel::Settled {
            moments: end_pairs(done.moments@),
            rounds: done.rounds as nat,
            unbalance: done.unbalance@,
        },
        Err(SolveError::NonConvergence(left)) => RunModel::Stalled {
            moments: end_pairs(left.moments@),
            rounds: left.rounds as nat,
            unbalance: left.unbalance@,
        },
        Err(SolveError::Overflow) => RunModel::Overflow,
    }
}

fn share_for(u: Fixed, fixed: bool, tol: Fixed, member: &Option<MemberFactor>) -> (r: Fixed)
    ensures
        r@ == share_of(
            u@,
            fixed,
            tol@,
            match *member {
                Some(m) => Some(m@),
                None => None,
            },
        ),
{
    match member {
        Some(mem) => if !fixed && tol.lt(u.abs()) {
            u.mul(mem.distribution)
        } else {
            Fixed::zero()
        },
        None => Fixed::zero(),
    }
}

fn carry_for(share: Fixed, member: &Option<MemberFactor>) -> (r: Fixed)
    ensures
        r@ == carry_of(
            share@,
            match *member {
                Some(m) => Some(m@),
                None => None,
            },
        ),
{
    match member {
        Some(mem) => share.mul(mem.carry_over),
        None => Fixed::zero(),
    }
}

/// The unbalance of every joint, from the left.
pub fn joint_unbalances(moments: &Vec<EndMoments>) -> (r: Vec<Fixed>)
    requires
        moments@.len() < usize::MAX,
    ensures
        r@.len() == moments@.len() + 1,
        forall|j: int| 0 <= j < r@.len() ==> (#[trigger] r@[j])@ == unbalance(end_pairs(moments@), j),
{
    let n = moments.len();
    let mut out: Vec<Fixed> = Vec::new();
    let mut j: usize = 0;
    while j <= n
        invariant
            n == moments@.len(),
            n < usize::MAX,
            j <= n + 1,
            out@.len() == j,
            forall|k: int|
                0 <= k < j ==> (#[trigger] out@[k])@ == unbalance(end_pairs(moments@), k),
        decreases n + 1 - j,
    {
        let left = if j >= 1 {
            moments[j - 1].m_j
        } else {
            Fixed::zero()
        };
        let right = if j < n {
            moments[j].m_i
        } else {
            Fixed::zero()
        };
        out.push(left.add(right).neg());
        j += 1;
    }
    out
}

/// The largest unbalance, in size, among the joints that are not clamped.
pub fn largest_unbalance(moments: &Vec<EndMoments>, factors: &Vec<JointFactors>) -> (r: Fixed)
    requires
        factors@.len() == moments@.len() + 1,
    ensures
        r@ == worst_unbalance(
            end_pairs(moments@),
            joint_models(factors@),
            factors@.len() as int,
        ),
{
    let count = factors.len();
    assert(moments@.len() < usize::MAX);
    let u = joint_unbalances(moments);
    largest_of(moments, &u, factors)
}

fn largest_of(moments: &Vec<EndMoments>, u: &Vec<Fixed>, factors: &Vec<JointFactors>) -> (r: Fixed)
    requires
        factors@.len() == u@.len(),
        forall|j: int| 0 <= j < u@.len() ==> (#[trigger] u@[j])@ == unbalance(end_pairs(moments@), j),
    ensures
        r@ == worst_unbalance(
            end_pairs(moments@),
            joint_models(factors@),
            factors@.len() as int,
        ),
{
    let count = factors.len();
    let mut worst = Fixed::zero();
    let mut j: usize = 0;
    while j < count
        invariant
            count == factors@.len(),
            count == u@.len(),
            j <= count,
            forall|k: int|
                0 <= k < u@.len() ==> (#[trigger] u@[k])@ == unbalance(end_pairs(moments@), k),
            worst@ == worst_unbalance(end_pairs(moments@), joint_models(factors@), j as int),
        decreases count - j,
    {
        if !factors[j].fixed {
            worst = worst.max(u[j].abs());
        }
        j += 1;
    }
    worst
}

fn all_finite(moments: &Vec<EndMoments>) -> (b: bool)
    ensures
        b == finite_moments(end_pairs(moments@)),
{
    let n = moments.len();
    let mut s: usize = 0;
    while s < n
        invariant
            n == moments@.len(),
            s <= n,
            forall|k: int|
                0 <= k < s ==> (#[trigger] end_pairs(moments@)[k]).m_i is Some && end_pairs(
                    moments@,
                )[k].m_j is Some,
        decreases n - s,
    {
        if !(moments[s].m_i.is_finite() && moments[s].m_j.is_finite()) {
            assert(!(end_pairs(moments@)[s as int].m_i is Some && end_pairs(
                moments@,
            )[s as int].m_j is Some));
            return false;
        }
        s += 1;
    }
    true
}

fn apply_round(
    moments: &Vec<EndMoments>,
    u: &Vec<Fixed>,
    factors: &Vec<JointFactors>,
    tol: Fixed,
) -> (r: Vec<EndMoments>)
    requires
        factors@.len() == moments@.len() + 1,
        u@.len() == factors@.len(),
        forall|j: int| 0 <= j < u@.len() ==> (#[trigger] u@[j])@ == unbalance(end_pairs(moments@), j),
    ensures
        end_pairs(r@) == round(end_pairs(moments@), joint_models(factors@), tol@),
{
    let n = moments.len();
    let ghost m = end_pairs(moments@);
    let ghost f = joint_models(factors@);
    let mut out: Vec<EndMoments> = Vec::new();
    let mut s: usize = 0;
    while s < n
        invariant
            n == moments@.len(),
            factors@.len() == n + 1,
            u@.len() == n + 1,
            m == end_pairs(moments@),
            f == joint_models(factors@),
            forall|j: int| 0 <= j < u@.len() ==> (#[trigger] u@[j])@ == unbalance(m, j),
            s <= n,
            out@.len() == s,
            forall|k: int| 0 <= k < s ==> (#[trigger] out@[k])@ == next_pair(m, f, tol@, k),
        decreases n - s,
    {
        let here = &factors[s];
        let there = &factors[s + 1];
        assert(f[s as int] == here@);
        assert(f[s + 1] == there@);
        let near = share_for(u[s], here.fixed, tol, &here.right);
        let far = share_for(u[s + 1], there.fixed, tol, &there.left);
        let to_i = carry_for(far, &there.left);
        let to_j = carry_for(near, &here.right);
        let pair = EndMoments {
            m_i: moments[s].m_i.add(near).add(to_i),
            m_j: moments[s].m_j.add(far).add(to_j),
        };
        assert(m[s as int] == moments@[s as int]@);
        assert(pair@ == next_pair(m, f, tol@, s as int));
        out.push(pair);
        s += 1;
    }
    assert(end_pairs(out@) =~= round(m, f, tol@));
    out
}

/// One round of moment distribution.
pub fn distribute_round(moments: &Vec<EndMoments>, factors: &Vec<JointFactors>, tol: Fixed) -> (r:
    Vec<EndMoments>)
    requires
        factors@.len() == moments@.len() + 1,
    ensures
        end_pairs(r@) == round(end_pairs(moments@), joint_models(factors@), tol@),
        settled(end_pairs(moments@), joint_models(factors@), tol@) && finite_factors(
            joint_models(factors@),
        ) ==> end_pairs(r@) == end_pairs(moments@),
{
    let count = factors.len();
    assert(moments@.len() < usize::MAX);
    let u = joint_unbalances(moments);
    proof {
        lemma_round_keeps_settled_moments(moments@, factors@, tol@);
    }
    apply_round(moments, &u, factors, tol)
}

/// A round leaves settled end moments as they are.
pub proof fn lemma_round_keeps_settled_moments(
    moments: Seq<EndMoments>,
    factors: Seq<JointFactors>,
    tol: Num,
)
    requires
        factors.len() == moments.len() + 1,
    ensures
        settled(end_pairs(moments), joint_models(factors), tol) && finite_factors(
            joint_models(factors),
        ) ==> round(end_pairs(moments), joint_models(factors), tol) == end_pairs(moments),
{
    if settled(end_pairs(moments), joint_models(factors), tol) && finite_factors(
        joint_models(factors),
    ) {
        lemma_end_pairs_bounded(moments);
        lemma_round_keeps_settled_state(end_pairs(moments), joint_models(factors), tol);
    }
}

/// The models of numbers are representable.
pub proof fn lemma_end_pairs_bounded(moments: Seq<EndMoments>)
    ensures
        bounded_moments(end_pairs(moments)),
{
    assert forall|s: int| 0 <= s < moments.len() implies num_bounded(
        (#[trigger] end_pairs(moments)[s]).m_i,
    ) && num_bounded(end_pairs(moments)[s].m_j) by {
        moments[s].m_i.lemma_view_bounded();
        moments[s].m_j.lemma_view_bounded();
    }
}

/// Balances the joints round by round, starting from the given end moments,
/// until the state is settled or `max_rounds` rounds are done.
pub fn solve(start: Vec<EndMoments>, factors: &Vec<JointFactors>, tol: Fixed, max_rounds: usize) -> (r:
    Result<Solution, SolveError>)
    requires
        factors@.len() == start@.len() + 1,
    ensures
        run_model(r) == run(end_pairs(start@), joint_models(factors@), tol@, 0, max_rounds as nat),
        r matches Ok(done) ==> {
            &&& done.moments@.len() == start@.len()
            &&& fx_lt(done.unbalance@, tol@)
            &&& forall|j: int|
                0 <= j < factors@.len() && !factors@[j].fixed ==> fx_lt(
                    fx_abs(#[trigger] net_moment(end_pairs(done.moments@), j)),
                    tol@,
                )
            &&& finite_factors(joint_models(factors@)) ==> round(
                end_pairs(done.moments@),
                joint_models(factors@),
                tol@,
            ) == end_pairs(done.moments@)
        },
        r matches Err(SolveError::NonConvergence(left)) ==> {
            &&& left.moments@.len() == start@.len()
            &&& left.rounds == max_rounds
            &&& !fx_lt(left.unbalance@, tol@)
        },
{
    let ghost f = joint_models(factors@);
    let ghost target = run(end_pairs(start@), f, tol@, 0, max_rounds as nat);
    let ghost n = start@.len();
    let count = factors.len();
    let mut cur = start;
    let mut used: usize = 0;
    loop
        invariant
            f == joint_models(factors@),
            target == run(end_pairs(start@), f, tol@, 0, max_rounds as nat),
            n == start@.len(),
            cur@.len() == n,
            factors@.len() == n + 1,
            n < usize::MAX,
            used <= max_rounds,
            run(end_pairs(cur@), f, tol@, used as nat, max_rounds as nat) == target,
        decreases max_rounds - used,
    {
        let u = joint_unbalances(&cur);
        let worst = largest_of(&cur, &u, factors);
        let ghost m = end_pairs(cur@);
        assert(worst@ == worst_unbalance(m, f, f.len() as int));
        if !all_finite(&cur) || !worst.is_finite() || !tol.is_finite() {
            assert(target is Overflow);
            return Err(SolveError::Overflow);
        }
        if worst.lt(tol) {
            proof {
                lemma_settled_joints_in_equilibrium(m, f, tol@, f.len() as int);
                assert forall|j: int| 0 <= j < factors@.len() && !factors@[j].fixed implies fx_lt(
                    fx_abs(#[trigger] net_moment(m, j)),
                    tol@,
                ) by {
                    assert(f[j] == factors@[j]@);
                }
                lemma_round_keeps_settled_moments(cur@, factors@, tol@);
                assert(target == RunModel::Settled {
                    moments: m,
                    rounds: used as nat,
                    unbalance: worst@,
                });
            }
            return Ok(Solution { moments: cur, rounds: used, unbalance: worst });
        }
        if used >= max_rounds {
            assert(target == RunModel::Stalled {
                moments: m,
                rounds: used as nat,
                unbalance: worst@,
            });
            return Err(
                SolveError::NonConvergence(Solution { moments: cur, rounds: used, unbalance: worst }),
            );
        }
        cur = apply_round(&cur, &u, factors, tol);
        used += 1;
    }
}

} // verus!
