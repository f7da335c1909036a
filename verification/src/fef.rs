//! Fixed-end forces: what a loaded span does with its ends held.
//!
//! Sign convention, used throughout the crate. Loads are positive downwards.
//! End moments are the moments acting on the span's ends, positive clockwise:
//! under a downward load the `i` end of a held span carries a negative
//! moment and its `j` end a positive one, and the end moments that meet at a
//! joint in equilibrium add up to zero. Shears are the upward forces on the
//! span's ends. The mid-span moment is positive when it sags the span, the
//! mid-span deflection is positive downwards and has the unit of the span's
//! length, and the slope at a propped end is positive clockwise.
use crate::error::{AnalysisError, Stage};
use crate::fixed::{
    fx_add, fx_div, fx_eq, fx_min, fx_mul, fx_neg, fx_one, fx_quot, fx_scale, fx_sub, fx_zero,
    lemma_product_is_cut_off, lemma_trunc_div_rounds_towards_zero, size, Fixed, Num, SCALE,
};
use crate::model::{AppliedLoad, AppliedLoadType, Beam, Span, SpanType};
use vstd::prelude::*;

verus! {

/// Which ends of a span are held against rotation.
#[derive(Clone, Copy, Debug, PartialEq, Eq, Structural)]
pub enum Hold {
    /// Both ends.
    Both,
    /// The `i` end only; the `j` end is propped.
    AtI,
    /// The `j` end only; the `i` end is propped.
    AtJ,
}

/// The shape of a load, as far as the formulas tell loads apart.
#[derive(Clone, Copy, Debug, PartialEq, Eq, Structural)]
pub enum LoadCase {
    /// A single force at the fraction `a_b_value` of the span.
    Point,
    /// The same intensity over the whole span.
    Uniform,
    /// Intensity rising from zero at the `j` end to the magnitude at the `i` end.
    PeakAtI,
    /// Intensity rising from zero at the `i` end to the magnitude at the `j` end.
    PeakAtJ,
}

/// Why a span's fixed-end forces could not be given.
#[derive(Clone, Copy, Debug, PartialEq, Eq, Structural)]
pub enum FefError {
    /// No formula covers this load on this span.
    UnsupportedLoadSpanCombination { load: usize },
    /// A result is not representable.
    Overflow,
}

/// What one load, or all loads of a span together, contribute before the
/// span's statics are put together.
pub struct LoadEffectModel {
    /// End moment at `i` with the span held as it is.
    pub m_i: Num,
    /// End moment at `j` with the span held as it is.
    pub m_j: Num,
    /// Reaction at `i` of the span simply supported.
    pub r_i: Num,
    /// Reaction at `j` of the span simply supported.
    pub r_j: Num,
    /// Mid-span moment of the span simply supported.
    pub m_mid: Num,
    /// Mid-span deflection of the span simply supported.
    pub defl_mid: Num,
    /// Size of the end slope, at the propped end, of the span simply
    /// supported; zero where both ends are held.
    pub slope: Num,
}

/// The fixed-end forces of a span.
pub struct FixedEndForcesModel {
    pub m_i: Num,
    pub m_j: Num,
    pub v_i: Num,
    pub v_j: Num,
    pub m_mid: Num,
    pub defl_mid: Num,
    pub slope_propped_end: Option<Num>,
}

/// The contributions of the loads taken up so far.
#[derive(Clone, Copy)]
struct LoadEffect {
    m_i: Fixed,
    m_j: Fixed,
    r_i: Fixed,
    r_j: Fixed,
    m_mid: Fixed,
    defl_mid: Fixed,
    slope: Fixed,
}

/// The fixed-end forces of a span: moments and shears at its two ends, the
/// moment and the deflection at mid-span, and for a propped cantilever the
/// slope at the propped end.
#[derive(Clone, Copy, Debug)]
pub struct FixedEndForces {
    pub m_i: Fixed,
    pub m_j: Fixed,
    pub v_i: Fixed,
    pub v_j: Fixed,
    pub m_mid: Fixed,
    pub defl_mid: Fixed,
    pub slope_propped_end: Option<Fixed>,
}

impl View for LoadEffect {
    type V = LoadEffectModel;

    closed spec fn view(&self) -> LoadEffectModel {
        LoadEffectModel {
            m_i: self.m_i@,
            m_j: self.m_j@,
            r_i: self.r_i@,
            r_j: self.r_j@,
            m_mid: self.m_mid@,
            defl_mid: self.defl_mid@,
            slope: self.slope@,
        }
    }
}

impl View for FixedEndForces {
    type V = FixedEndForcesModel;

    open spec fn view(&self) -> FixedEndForcesModel {
        FixedEndForcesModel {
            m_i: self.m_i@,
            m_j: self.m_j@,
            v_i: self.v_i@,
            v_j: self.v_j@,
            m_mid: self.m_mid@,
            defl_mid: self.defl_mid@,
            slope_propped_end: match self.slope_propped_end {
                Some(s) => Some(s@),
                None => None,
            },
        }
    }
}

impl FixedEndForcesModel {
    /// Whether every force is representable.
    pub open spec fn finite(self) -> bool {
        &&& self.m_i is Some
        &&& self.m_j is Some
        &&& self.v_i is Some
        &&& self.v_j is Some
        &&& self.m_mid is Some
        &&& self.defl_mid is Some
        &&& self.slope_propped_end matches Some(s) ==> s is Some
    }
}

/// The formula case of a load: a linearly varying load has its peak at one
/// end of the span, or no formula covers it.
pub open spec fn load_case(load: AppliedLoad) -> Option<LoadCase> {
    match load.load_type {
        AppliedLoadType::PointLoad => Some(LoadCase::Point),
        AppliedLoadType::UniformLoad => Some(LoadCase::Uniform),
        AppliedLoadType::LinearlyVarying => if fx_eq(load.a_b_value@, fx_zero()) {
            Some(LoadCase::PeakAtI)
        } else if fx_eq(load.a_b_value@, fx_one()) {
            Some(LoadCase::PeakAtJ)
        } else {
            None
        },
    }
}

/// End moment at `i` of one load.
///
/// With `w` the magnitude, `L` the length and `t` the load's fraction of the
/// span: held at both ends `-wL^2/12` (uniform), `-PL t(1-t)^2` (point),
/// `-wL^2/20` and `-wL^2/30` (peak at `i`, at `j`); held at `i` only
/// `-3wL^2/16`, `-PL t(1-t)(2-t)/2`, `-wL^2/15` and `-7wL^2/120`; zero at a
/// propped end.
pub open spec fn end_moment_i(length: Num, hold: Hold, case: LoadCase, load: AppliedLoad) -> Num {
    let wl = fx_mul(load.magnitude@, length);
    let wl2 = fx_mul(wl, length);
    let t = load.a_b_value@;
    let u = fx_sub(fx_one(), t);
    match hold {
        Hold::AtJ => fx_zero(),
        Hold::Both => match case {
            LoadCase::Uniform => fx_neg(fx_quot(wl2, 12)),
            LoadCase::Point => fx_neg(fx_mul(fx_mul(fx_mul(wl, t), u), u)),
            LoadCase::PeakAtI => fx_neg(fx_quot(wl2, 20)),
            LoadCase::PeakAtJ => fx_neg(fx_quot(wl2, 30)),
        },
        Hold::AtI => match case {
            LoadCase::Uniform => fx_neg(fx_quot(fx_scale(wl2, 3), 16)),
            LoadCase::Point => fx_neg(
                fx_quot(fx_mul(fx_mul(fx_mul(wl, t), u), fx_add(fx_one(), u)), 2),
            ),
            LoadCase::PeakAtI => fx_neg(fx_quot(wl2, 15)),
            LoadCase::PeakAtJ => fx_neg(fx_quot(fx_scale(wl2, 7), 120)),
        },
    }
}

/// End moment at `j` of one load: the mirror image of `end_moment_i`.
pub open spec fn end_moment_j(length: Num, hold: Hold, case: LoadCase, load: AppliedLoad) -> Num {
    let wl = fx_mul(load.magnitude@, length);
    let wl2 = fx_mul(wl, length);
    let t = load.a_b_value@;
    let u = fx_sub(fx_one(), t);
    match hold {
        Hold::AtI => fx_zero(),
        Hold::Both => match case {
            LoadCase::Uniform => fx_quot(wl2, 12),
            LoadCase::Point => fx_mul(fx_mul(fx_mul(wl, t), t), u),
            LoadCase::PeakAtI => fx_quot(wl2, 30),
            LoadCase::PeakAtJ => fx_quot(wl2, 20),
        },
        Hold::AtJ => match case {
            LoadCase::Uniform => fx_quot(fx_scale(wl2, 3), 16),
            LoadCase::Point => fx_quot(
                fx_mul(fx_mul(fx_mul(wl, t), u), fx_add(fx_one(), t)),
                2,
            ),
            LoadCase::PeakAtI => fx_quot(fx_scale(wl2, 7), 120),
            LoadCase::PeakAtJ => fx_quot(wl2, 15),
        },
    }
}

/// Reaction at `j` of the simply supported span under one load: `wL/2`,
/// `Px/L`, `wL/6` and `wL/3`.
pub open spec fn simple_reaction_j(length: Num, case: LoadCase, load: AppliedLoad) -> Num {
    let wl = fx_mul(load.magnitude@, length);
    match case {
        LoadCase::Uniform => fx_quot(wl, 2),
        LoadCase::Point => fx_div(fx_mul(load.magnitude@, load.x_value@), length),
        LoadCase::PeakAtI => fx_quot(wl, 6),
        LoadCase::PeakAtJ => fx_quot(wl, 3),
    }
}

/// Reaction at `i` of the simply supported span under one load.
pub open spec fn simple_reaction_i(length: Num, case: LoadCase, load: AppliedLoad) -> Num {
    let wl = fx_mul(load.magnitude@, length);
    match case {
        LoadCase::Uniform => fx_quot(wl, 2),
        LoadCase::Point => fx_sub(load.magnitude@, simple_reaction_j(length, case, load)),
        LoadCase::PeakAtI => fx_quot(wl, 3),
        LoadCase::PeakAtJ => fx_quot(wl, 6),
    }
}

/// Mid-span moment of the simply supported span under one load: `wL^2/8`,
/// `PL min(t, 1-t)/2`, and `wL^2/16` for either peak.
pub open spec fn simple_moment(length: Num, case: LoadCase, load: AppliedLoad) -> Num {
    let wl = fx_mul(load.magnitude@, length);
    let wl2 = fx_mul(wl, length);
    let t = load.a_b_value@;
    let u = fx_sub(fx_one(), t);
    match case {
        LoadCase::Uniform => fx_quot(wl2, 8),
        LoadCase::Point => fx_quot(fx_mul(wl, fx_min(t, u)), 2),
        _ => fx_quot(wl2, 16),
    }
}

/// Mid-span deflection of the simply supported span under one load:
/// `5wL^4/(384EI)`, `PL^3 s(3-4s^2)/(48EI)` with `s = min(t, 1-t)`, and
/// `5wL^4/(768EI)` for either peak.
pub open spec fn simple_deflection(length: Num, ei: Num, case: LoadCase, load: AppliedLoad) -> Num {
    let wl = fx_mul(load.magnitude@, length);
    let wl3 = fx_mul(fx_mul(wl, length), length);
    let wl4 = fx_mul(wl3, length);
    let t = load.a_b_value@;
    let s = fx_min(t, fx_sub(fx_one(), t));
    match case {
        LoadCase::Uniform => fx_div(fx_quot(fx_scale(wl4, 5), 384), ei),
        LoadCase::Point => fx_div(
            fx_quot(
                fx_mul(wl3, fx_mul(s, fx_sub(fx_scale(fx_one(), 3), fx_scale(fx_mul(s, s), 4)))),
                48,
            ),
            ei,
        ),
        _ => fx_div(fx_quot(fx_scale(wl4, 5), 768), ei),
    }
}

/// Size of the slope at the propped end of the simply supported span under
/// one load. At the `j` end: `wL^3/(24EI)`, `PL^2 t(1-t)(1+t)/(6EI)`,
/// `7wL^3/(360EI)` and `8wL^3/(360EI)` (peak at `i`, at `j`); at the `i`
/// end the mirror image. Zero where both ends are held.
pub open spec fn simple_slope(length: Num, ei: Num, hold: Hold, case: LoadCase, load: AppliedLoad) -> Num {
    let wl = fx_mul(load.magnitude@, length);
    let wl2 = fx_mul(wl, length);
    let wl3 = fx_mul(wl2, length);
    let t = load.a_b_value@;
    let u = fx_sub(fx_one(), t);
    let near = match hold {
        Hold::AtJ => true,
        _ => false,
    };
    match hold {
        Hold::Both => fx_zero(),
        _ => match case {
            LoadCase::Uniform => fx_div(fx_quot(wl3, 24), ei),
            LoadCase::Point => fx_div(
                fx_quot(
                    fx_mul(fx_mul(fx_mul(wl2, t), u), fx_add(fx_one(), if near { u } else { t })),
                    6,
                ),
                ei,
            ),
            LoadCase::PeakAtI => fx_div(
                fx_quot(fx_scale(wl3, if near { 8 } else { 7 }), 360),
                ei,
            ),
            LoadCase::PeakAtJ => fx_div(
                fx_quot(fx_scale(wl3, if near { 7 } else { 8 }), 360),
                ei,
            ),
        },
    }
}

/// Everything one load contributes.
pub open spec fn load_effect(length: Num, ei: Num, hold: Hold, case: LoadCase, load: AppliedLoad) -> LoadEffectModel {
    LoadEffectModel {
        m_i: end_moment_i(length, hold, case, load),
        m_j: end_moment_j(length, hold, case, load),
        r_i: simple_reaction_i(length, case, load),
        r_j: simple_reaction_j(length, case, load),
        m_mid: simple_moment(length, case, load),
        defl_mid: simple_deflection(length, ei, case, load),
        slope: simple_slope(length, ei, hold, case, load),
    }
}

/// No load at all.
pub open spec fn no_effect() -> LoadEffectModel {
    LoadEffectModel {
        m_i: fx_zero(),
        m_j: fx_zero(),
        r_i: fx_zero(),
        r_j: fx_zero(),
        m_mid: fx_zero(),
        defl_mid: fx_zero(),
        slope: fx_zero(),
    }
}

/// Two contributions superposed.
pub open spec fn add_effects(a: LoadEffectModel, b: LoadEffectModel) -> LoadEffectModel {
    LoadEffectModel {
        m_i: fx_add(a.m_i, b.m_i),
        m_j: fx_add(a.m_j, b.m_j),
        r_i: fx_add(a.r_i, b.r_i),
        r_j: fx_add(a.r_j, b.r_j),
        m_mid: fx_add(a.m_mid, b.m_mid),
        defl_mid: fx_add(a.defl_mid, b.defl_mid),
        slope: fx_add(a.slope, b.slope),
    }
}

/// The contributions of the first `upto` loads superposed, one after the
/// other. A load that no formula covers contributes nothing.
pub open spec fn sum_effects(length: Num, ei: Num, hold: Hold, loads: Seq<AppliedLoad>, upto: int) -> LoadEffectModel
    decreases upto,
{
    if upto <= 0 {
        no_effect()
    } else {
        let before = sum_effects(length, ei, hold, loads, upto - 1);
        match load_case(loads[upto - 1]) {
            Some(case) => add_effects(before, load_effect(length, ei, hold, case, loads[upto - 1])),
            None => before,
        }
    }
}

/// The statics of the span with its ends held, from the superposed
/// contributions of its loads `s`:
/// shears `r_i - (m_i + m_j)/L` and `r_j + (m_i + m_j)/L`, mid-span moment
/// `m_mid + (m_i - m_j)/2`, mid-span deflection
/// `defl_mid + (m_i - m_j)L^2/(16EI)`, and at a propped `j` end the slope
/// `-(slope + m_i L/(6EI))`, at a propped `i` end `slope - m_j L/(6EI)`.
pub open spec fn assemble(length: Num, ei: Num, hold: Hold, s: LoadEffectModel) -> FixedEndForcesModel {
    let couple = fx_div(fx_add(s.m_i, s.m_j), length);
    let sway = fx_sub(s.m_i, s.m_j);
    FixedEndForcesModel {
        m_i: s.m_i,
        m_j: s.m_j,
        v_i: fx_sub(s.r_i, couple),
        v_j: fx_add(s.r_j, couple),
        m_mid: fx_add(s.m_mid, fx_quot(sway, 2)),
        defl_mid: fx_add(s.defl_mid, fx_div(fx_mul(fx_mul(sway, length), length), fx_scale(ei, 16))),
        slope_propped_end: match hold {
            Hold::Both => None,
            Hold::AtI => Some(
                fx_neg(fx_add(s.slope, fx_div(fx_mul(s.m_i, length), fx_scale(ei, 6)))),
            ),
            Hold::AtJ => Some(fx_sub(s.slope, fx_div(fx_mul(s.m_j, length), fx_scale(ei, 6)))),
        },
    }
}

/// The first load from `from` on that no formula covers.
pub open spec fn first_uncovered(loads: Seq<AppliedLoad>, from: int) -> Option<usize>
    decreases loads.len() - from,
{
    if from < 0 || from >= loads.len() {
        None
    } else if load_case(loads[from]) is None {
        Some(from as usize)
    } else {
        first_uncovered(loads, from + 1)
    }
}

impl Span {
    /// Which ends of the span are held. A propped cantilever names one end
    /// condition that releases and one that does not; if it does not, no
    /// formula covers the span.
    pub open spec fn hold(&self) -> Option<Hold> {
        match self.span_type {
            SpanType::FixedEnd => Some(Hold::Both),
            SpanType::ProppedCantilever => if self.support_conditions@.len() != 2 {
                None
            } else if !self.support_conditions@[0].releases()
                && self.support_conditions@[1].releases() {
                Some(Hold::AtI)
            } else if self.support_conditions@[0].releases()
                && !self.support_conditions@[1].releases() {
                Some(Hold::AtJ)
            } else {
                None
            },
        }
    }

    /// The first load of the span that no formula covers: on a span that is
    /// not covered itself its first load, else the first linearly varying
    /// load whose peak is not at an end.
    pub open spec fn uncovered_load(&self) -> Option<usize> {
        if self.hold() is None {
            if self.applied_loads@.len() > 0 {
                Some(0usize)
            } else {
                None
            }
        } else {
            first_uncovered(self.applied_loads@, 0)
        }
    }

    /// The fixed-end forces of the span, all its loads superposed.
    pub open spec fn fef(&self) -> FixedEndForcesModel {
        let hold = match self.hold() {
            Some(h) => h,
            None => Hold::Both,
        };
        assemble(
            self.length@,
            self.ei_value@,
            hold,
            sum_effects(
                self.length@,
                self.ei_value@,
                hold,
                self.applied_loads@,
                self.applied_loads@.len() as int,
            ),
        )
    }

    /// Why the span has no fixed-end forces, if it has none: the first load
    /// that no formula covers, or else a force that is not representable.
    pub open spec fn fef_error(&self) -> Option<FefError> {
        match self.uncovered_load() {
            Some(load) => Some(FefError::UnsupportedLoadSpanCombination { load }),
            None => if self.fef().finite() {
                None
            } else {
                Some(FefError::Overflow)
            },
        }
    }

    /// Which ends of the span are held.
    pub fn find_hold(&self) -> (r: Option<Hold>)
        ensures
            r == self.hold(),
    {
        match self.span_type {
            SpanType::FixedEnd => Some(Hold::Both),
            SpanType::ProppedCantilever => {
                if self.support_conditions.len() != 2 {
                    return None;
                }
                let at_i = self.support_conditions[0].is_released();
                let at_j = self.support_conditions[1].is_released();
                if !at_i && at_j {
                    Some(Hold::AtI)
                } else if at_i && !at_j {
                    Some(Hold::AtJ)
                } else {
                    None
                }
            },
        }
    }

    /// The fixed-end forces of the span under all its loads.
    ///
    /// Fails with the first load that no formula covers, if there is one,
    /// and else with `Overflow` if a force is not representable.
    pub fn fef_calc(&self) -> (r: Result<FixedEndForces, FefError>)
        ensures
            match r {
                Ok(f) => self.fef_error() is None && f@ == self.fef(),
                Err(e) => self.fef_error() == Some(e),
            },
            self.hold() == Some(Hold::Both) && r is Ok && (forall|l: int|
                0 <= l < self.applied_loads@.len() ==> (
                #[trigger] self.applied_loads@[l]).load_type == AppliedLoadType::UniformLoad)
                ==> r->Ok_0.m_i@ == fx_neg(r->Ok_0.m_j@),
            self.hold() == Some(Hold::AtI) && r is Ok ==> r->Ok_0.m_j@ == fx_zero(),
            self.hold() == Some(Hold::AtJ) && r is Ok ==> r->Ok_0.m_i@ == fx_zero(),
    {
        let n = self.applied_loads.len();
        let hold = match self.find_hold() {
            Some(h) => h,
            None => {
                if n > 0 {
                    return Err(FefError::UnsupportedLoadSpanCombination { load: 0 });
                }
                Hold::Both
            },
        };
        let mut sum = LoadEffect::none();
        let mut l: usize = 0;
        while l < n
            invariant
                n == self.applied_loads@.len(),
                l <= n,
                self.hold() == Some(hold) || n == 0,
                first_uncovered(self.applied_loads@, 0) == first_uncovered(
                    self.applied_loads@,
                    l as int,
                ),
                sum@ == sum_effects(
                    self.length@,
                    self.ei_value@,
                    hold,
                    self.applied_loads@,
                    l as int,
                ),
            decreases n - l,
        {
            let load = &self.applied_loads[l];
            match classify(load) {
                None => {
                    return Err(FefError::UnsupportedLoadSpanCombination { load: l });
                },
                Some(case) => {
                    let e = effect_of(self.length, self.ei_value, hold, case, load);
                    sum = sum.plus(&e);
                },
            }
            l += 1;
        }
        let f = put_together(self.length, self.ei_value, hold, &sum);
        proof {
            lemma_propped_end_carries_nothing(
                self.length@,
                self.ei_value@,
                hold,
                self.applied_loads@,
                n as int,
            );
            if self.hold() == Some(Hold::Both) && (forall|l: int|
                0 <= l < self.applied_loads@.len() ==> (
                #[trigger] self.applied_loads@[l]).load_type == AppliedLoadType::UniformLoad) {
                lemma_uniform_loads_balance(
                    self.length@,
                    self.ei_value@,
                    self.applied_loads@,
                    n as int,
                );
            }
        }
        if f.all_finite() {
            Ok(f)
        } else {
            Err(FefError::Overflow)
        }
    }
}

impl LoadEffect {
    fn none() -> (r: LoadEffect)
        ensures
            r@ == no_effect(),
    {
        let z = Fixed::zero();
        LoadEffect { m_i: z, m_j: z, r_i: z, r_j: z, m_mid: z, defl_mid: z, slope: z }
    }

    fn plus(&self, other: &LoadEffect) -> (r: LoadEffect)
        ensures
            r@ == add_effects(self@, other@),
    {
        LoadEffect {
            m_i: self.m_i.add(other.m_i),
            m_j: self.m_j.add(other.m_j),
            r_i: self.r_i.add(other.r_i),
            r_j: self.r_j.add(other.r_j),
            m_mid: self.m_mid.add(other.m_mid),
            defl_mid: self.defl_mid.add(other.defl_mid),
            slope: self.slope.add(other.slope),
        }
    }
}

impl FixedEndForces {
    /// Whether every force is representable.
    pub fn all_finite(&self) -> (b: bool)
        ensures
            b == self@.finite(),
    {
        self.m_i.is_finite() && self.m_j.is_finite() && self.v_i.is_finite()
            && self.v_j.is_finite() && self.m_mid.is_finite() && self.defl_mid.is_finite()
            && match self.slope_propped_end {
            Some(s) => s.is_finite(),
            None => true,
        }
    }
}

/// The formula case of a load.
pub fn classify(load: &AppliedLoad) -> (r: Option<LoadCase>)
    ensures
        r == load_case(*load),
{
    match load.load_type {
        AppliedLoadType::PointLoad => Some(LoadCase::Point),
        AppliedLoadType::UniformLoad => Some(LoadCase::Uniform),
        AppliedLoadType::LinearlyVarying => {
            if load.a_b_value.equals(Fixed::zero()) {
                Some(LoadCase::PeakAtI)
            } else if load.a_b_value.equals(Fixed::one()) {
                Some(LoadCase::PeakAtJ)
            } else {
                None
            }
        },
    }
}

fn moment_i_of(length: Fixed, hold: Hold, case: LoadCase, load: &AppliedLoad) -> (r: Fixed)
    ensures
        r@ == end_moment_i(length@, hold, case, *load),
{
    let wl = load.magnitude.mul(length);
    let wl2 = wl.mul(length);
    let t = load.a_b_value;
    let u = Fixed::one().sub(t);
    match hold {
        Hold::AtJ => Fixed::zero(),
        Hold::Both => match case {
            LoadCase::Uniform => wl2.quot(12).neg(),
            LoadCase::Point => wl.mul(t).mul(u).mul(u).neg(),
            LoadCase::PeakAtI => wl2.quot(20).neg(),
            LoadCase::PeakAtJ => wl2.quot(30).neg(),
        },
        Hold::AtI => match case {
            LoadCase::Uniform => wl2.scale(3).quot(16).neg(),
            LoadCase::Point => wl.mul(t).mul(u).mul(Fixed::one().add(u)).quot(2).neg(),
            LoadCase::PeakAtI => wl2.quot(15).neg(),
            LoadCase::PeakAtJ => wl2.scale(7).quot(120).neg(),
        },
    }
}

fn moment_j_of(length: Fixed, hold: Hold, case: LoadCase, load: &AppliedLoad) -> (r: Fixed)
    ensures
        r@ == end_moment_j(length@, hold, case, *load),
{
    let wl = load.magnitude.mul(length);
    let wl2 = wl.mul(length);
    let t = load.a_b_value;
    let u = Fixed::one().sub(t);
    match hold {
        Hold::AtI => Fixed::zero(),
        Hold::Both => match case {
            LoadCase::Uniform => wl2.quot(12),
            LoadCase::Point => wl.mul(t).mul(t).mul(u),
            LoadCase::PeakAtI => wl2.quot(30),
            LoadCase::PeakAtJ => wl2.quot(20),
        },
        Hold::AtJ => match case {
            LoadCase::Uniform => wl2.scale(3).quot(16),
            LoadCase::Point => wl.mul(t).mul(u).mul(Fixed::one().add(t)).quot(2),
            LoadCase::PeakAtI => wl2.scale(7).quot(120),
            LoadCase::PeakAtJ => wl2.quot(15),
        },
    }
}

fn reaction_j_of(length: Fixed, case: LoadCase, load: &AppliedLoad) -> (r: Fixed)
    ensures
        r@ == simple_reaction_j(length@, case, *load),
{
    let wl = load.magnitude.mul(length);
    match case {
        LoadCase::Uniform => wl.quot(2),
        LoadCase::Point => load.magnitude.mul(load.x_value).div(length),
        LoadCase::PeakAtI => wl.quot(6),
        LoadCase::PeakAtJ => wl.quot(3),
    }
}

fn reaction_i_of(length: Fixed, case: LoadCase, load: &AppliedLoad) -> (r: Fixed)
    ensures
        r@ == simple_reaction_i(length@, case, *load),
{
    let wl = load.magnitude.mul(length);
    match case {
        LoadCase::Uniform => wl.quot(2),
        LoadCase::Point => load.magnitude.sub(reaction_j_of(length, case, load)),
        LoadCase::PeakAtI => wl.quot(3),
        LoadCase::PeakAtJ => wl.quot(6),
    }
}

fn simple_moment_of(length: Fixed, case: LoadCase, load: &AppliedLoad) -> (r: Fixed)
    ensures
        r@ == simple_moment(length@, case, *load),
{
    let wl = load.magnitude.mul(length);
    let wl2 = wl.mul(length);
    let t = load.a_b_value;
    let u = Fixed::one().sub(t);
    match case {
        LoadCase::Uniform => wl2.quot(8),
        LoadCase::Point => wl.mul(t.min(u)).quot(2),
        _ => wl2.quot(16),
    }
}

fn simple_deflection_of(length: Fixed, ei: Fixed, case: LoadCase, load: &AppliedLoad) -> (r: Fixed)
    ensures
        r@ == simple_deflection(length@, ei@, case, *load),
{
    let wl = load.magnitude.mul(length);
    let wl3 = wl.mul(length).mul(length);
    let wl4 = wl3.mul(length);
    let t = load.a_b_value;
    let s = t.min(Fixed::one().sub(t));
    match case {
        LoadCase::Uniform => wl4.scale(5).quot(384).div(ei),
        LoadCase::Point => {
            let shape = s.mul(Fixed::one().scale(3).sub(s.mul(s).scale(4)));
            wl3.mul(shape).quot(48).div(ei)
        },
        _ => wl4.scale(5).quot(768).div(ei),
    }
}

fn simple_slope_of(length: Fixed, ei: Fixed, hold: Hold, case: LoadCase, load: &AppliedLoad) -> (r:
    Fixed)
    ensures
        r@ == simple_slope(length@, ei@, hold, case, *load),
{
    let wl = load.magnitude.mul(length);
    let wl2 = wl.mul(length);
    let wl3 = wl2.mul(length);
    let t = load.a_b_value;
    let u = Fixed::one().sub(t);
    let near = match hold {
        Hold::AtJ => true,
        _ => false,
    };
    match hold {
        Hold::Both => Fixed::zero(),
        _ => match case {
            LoadCase::Uniform => wl3.quot(24).div(ei),
            LoadCase::Point => {
                let lever = Fixed::one().add(if near { u } else { t });
                wl2.mul(t).mul(u).mul(lever).quot(6).div(ei)
            },
            LoadCase::PeakAtI => {
                let k: i64 = if near { 8 } else { 7 };
                wl3.scale(k).quot(360).div(ei)
            },
            LoadCase::PeakAtJ => {
                let k: i64 = if near { 7 } else { 8 };
                wl3.scale(k).quot(360).div(ei)
            },
        },
    }
}

fn effect_of(length: Fixed, ei: Fixed, hold: Hold, case: LoadCase, load: &AppliedLoad) -> (r:
    LoadEffect)
    ensures
        r@ == load_effect(length@, ei@, hold, case, *load),
{
    LoadEffect {
        m_i: moment_i_of(length, hold, case, load),
        m_j: moment_j_of(length, hold, case, load),
        r_i: reaction_i_of(length, case, load),
        r_j: reaction_j_of(length, case, load),
        m_mid: simple_moment_of(length, case, load),
        defl_mid: simple_deflection_of(length, ei, case, load),
        slope: simple_slope_of(length, ei, hold, case, load),
    }
}

fn put_together(length: Fixed, ei: Fixed, hold: Hold, s: &LoadEffect) -> (r: FixedEndForces)
    ensures
        r@ == assemble(length@, ei@, hold, s@),
{
    let couple = s.m_i.add(s.m_j).div(length);
    let sway = s.m_i.sub(s.m_j);
    FixedEndForces {
        m_i: s.m_i,
        m_j: s.m_j,
        v_i: s.r_i.sub(couple),
        v_j: s.r_j.add(couple),
        m_mid: s.m_mid.add(sway.quot(2)),
        defl_mid: s.defl_mid.add(sway.mul(length).mul(length).div(ei.scale(16))),
        slope_propped_end: match hold {
            Hold::Both => None,
            Hold::AtI => Some(s.slope.add(s.m_i.mul(length).div(ei.scale(6))).neg()),
            Hold::AtJ => Some(s.slope.sub(s.m_j.mul(length).div(ei.scale(6)))),
        },
    }
}

/// The models of a row of fixed-end forces.
pub open spec fn fef_models(f: Seq<FixedEndForces>) -> Seq<FixedEndForcesModel> {
    Seq::new(f.len(), |s: int| f[s]@)
}

impl Beam {
    /// The first span from `from` on that has no fixed-end forces, with the
    /// reason.
    pub open spec fn fef_failure(&self, from: int) -> Option<(usize, FefError)>
        decreases self.spans@.len() - from,
    {
        if from < 0 || from >= self.spans@.len() {
            None
        } else {
            match self.spans@[from].fef_error() {
                Some(e) => Some((from as usize, e)),
                None => self.fef_failure(from + 1),
            }
        }
    }

    /// The fixed-end forces of every span.
    pub open spec fn fixed_end_forces(&self) -> Seq<FixedEndForcesModel> {
        Seq::new(self.spans@.len(), |s: int| self.spans@[s].fef())
    }

    /// The fixed-end forces of every span, from the left.
    ///
    /// Fails at the first span that has none.
    pub fn fef_calc(&self) -> (r: Result<Vec<FixedEndForces>, AnalysisError>)
        ensures
            match r {
                Ok(f) => self.fef_failure(0) is None && fef_models(f@) == self.fixed_end_forces(),
                Err(AnalysisError::UnsupportedLoadSpanCombination { span, load }) => self.fef_failure(
                    0,
                ) == Some((span, FefError::UnsupportedLoadSpanCombination { load })),
                Err(AnalysisError::Overflow(Stage::FixedEndForces { span })) => self.fef_failure(0)
                    == Some((span, FefError::Overflow)),
                Err(_) => false,
            },
    {
        let n = self.spans.len();
        let mut out: Vec<FixedEndForces> = Vec::new();
        let mut s: usize = 0;
        while s < n
            invariant
                n == self.spans@.len(),
                s <= n,
                out@.len() == s,
                self.fef_failure(0) == self.fef_failure(s as int),
                forall|k: int| 0 <= k < s ==> (#[trigger] out@[k])@ == self.spans@[k].fef(),
            decreases n - s,
        {
            match self.spans[s].fef_calc() {
                Ok(f) => {
                    out.push(f);
                },
                Err(FefError::UnsupportedLoadSpanCombination { load }) => {
                    return Err(AnalysisError::UnsupportedLoadSpanCombination { span: s, load });
                },
                Err(FefError::Overflow) => {
                    return Err(AnalysisError::Overflow(Stage::FixedEndForces { span: s }));
                },
            }
            s += 1;
        }
        assert(fef_models(out@) =~= self.fixed_end_forces());
        Ok(out)
    }
}

/// The propped end of a span carries no moment, whatever its loads.
pub proof fn lemma_propped_end_carries_nothing(
    length: Num,
    ei: Num,
    hold: Hold,
    loads: Seq<AppliedLoad>,
    upto: int,
)
    requires
        0 <= upto <= loads.len(),
    ensures
        hold == Hold::AtI ==> sum_effects(length, ei, hold, loads, upto).m_j == fx_zero(),
        hold == Hold::AtJ ==> sum_effects(length, ei, hold, loads, upto).m_i == fx_zero(),
    decreases upto,
{
    if upto > 0 {
        lemma_propped_end_carries_nothing(length, ei, hold, loads, upto - 1);
    }
}

/// Under uniform loads alone, a span held at both ends carries end moments
/// of the same size and of opposite sign.
pub proof fn lemma_uniform_loads_balance(length: Num, ei: Num, loads: Seq<AppliedLoad>, upto: int)
    requires
        0 <= upto <= loads.len(),
        forall|l: int|
            0 <= l < upto ==> (#[trigger] loads[l]).load_type == AppliedLoadType::UniformLoad,
    ensures
        sum_effects(length, ei, Hold::Both, loads, upto).m_i == fx_neg(
            sum_effects(length, ei, Hold::Both, loads, upto).m_j,
        ),
    decreases upto,
{
    if upto > 0 {
        lemma_uniform_loads_balance(length, ei, loads, upto - 1);
        assert(loads[upto - 1].load_type == AppliedLoadType::UniformLoad);
    }
}

/// Under a uniform load `w` a span of length `l` held at both ends carries,
/// at its `j` end, the moment `w l^2 / 12` but for what rounding takes: less
/// than thirteen twelfths of a billionth and a twelfth of `l` billionths.
pub proof fn lemma_uniform_moment_is_close(load: AppliedLoad, length: Num)
    requires
        length matches Some(l) && l >= 0,
    ensures
        end_moment_j(length, Hold::Both, LoadCase::Uniform, load) matches Some(m) ==> {
            &&& load.magnitude@ is Some
            &&& size(12 * m * (SCALE * SCALE) - load.magnitude@->0 * (length->0 * length->0)) < 13
                * (SCALE * SCALE) + SCALE * length->0
            &&& end_moment_i(length, Hold::Both, LoadCase::Uniform, load) == Some(-m)
        },
{
    let s = SCALE as int;
    let l = length->0;
    if end_moment_j(length, Hold::Both, LoadCase::Uniform, load) is Some {
        let m = end_moment_j(length, Hold::Both, LoadCase::Uniform, load)->0;
        let w = load.magnitude@->0;
        let wl = fx_mul(load.magnitude@, length)->0;
        let wl2 = fx_mul(Some(wl), length)->0;
        lemma_product_is_cut_off(w, l);
        lemma_product_is_cut_off(wl, l);
        lemma_trunc_div_rounds_towards_zero(wl2, 12);
        let e1 = w * l - wl * s;
        let e2 = wl * l - wl2 * s;
        let e3 = wl2 - m * 12;
        assert(12 * m * (s * s) - w * (l * l) == -(e3 * (s * s)) - e2 * s - e1 * l)
            by (nonlinear_arith)
            requires
                e1 == w * l - wl * s,
                e2 == wl * l - wl2 * s,
                e3 == wl2 - m * 12,
        ;
        assert(size(e3 * (s * s)) < 12 * (s * s) && size(e2 * s) < s * s && size(e1 * l) <= s * l)
            by (nonlinear_arith)
            requires
                size(e1) < s,
                size(e2) < s,
                size(e3) < 12,
                l >= 0,
                s == 1_000_000_000,
        ;
    }
}

/// A sum times a factor is the sum of the terms times the factor.
proof fn lemma_times_sum(a: int, b: int, c: int, d: int, k: int)
    ensures
        (a + b + c + d) * k == a * k + b * k + c * k + d * k,
{
    assert((a + b + c + d) * k == a * k + b * k + c * k + d * k) by (nonlinear_arith);
}

/// The factors of a product can change places.
proof fn lemma_factor_moves(a: int, b: int, k: int)
    ensures
        a * b * k == a * k * b,
{
    assert(a * b * k == a * k * b) by (nonlinear_arith);
}

/// An error of less than a billionth, taken `k` billionths of a time with
/// `k` no more than a billion, stays less than a billionth.
proof fn lemma_error_shrinks(e: int, k: int, bound: int)
    requires
        0 <= k <= SCALE,
        0 <= bound,
        size(e) <= bound,
    ensures
        size(e * k) <= bound * SCALE,
{
    assert(size(e * k) <= bound * SCALE) by (nonlinear_arith)
        requires
            0 <= k <= SCALE,
            0 <= bound,
            size(e) <= bound,
            SCALE == 1_000_000_000,
    ;
}

/// Under a force `p` at the fraction `t` of its length `l`, a span held at
/// both ends carries, at its `i` end, the moment `-p l t (1 - t)^2` but for
/// what rounding takes: less than four billionths.
pub proof fn lemma_point_moment_is_close(load: AppliedLoad, length: Num)
    requires
        load.a_b_value@ matches Some(t) && 0 <= t <= SCALE,
    ensures
        end_moment_i(length, Hold::Both, LoadCase::Point, load) matches Some(m) ==> {
            &&& load.magnitude@ is Some
            &&& length is Some
            &&& size(
                m * (SCALE * SCALE * SCALE * SCALE) + load.magnitude@->0 * length->0
                    * load.a_b_value@->0 * (SCALE - load.a_b_value@->0) * (SCALE
                    - load.a_b_value@->0),
            ) < 4 * (SCALE * SCALE * SCALE * SCALE)
        },
{
    let s = SCALE as int;
    let t = load.a_b_value@->0;
    let u = s - t;
    if end_moment_i(length, Hold::Both, LoadCase::Point, load) is Some {
        let m = end_moment_i(length, Hold::Both, LoadCase::Point, load)->0;
        let p = load.magnitude@->0;
        let l = length->0;
        let a = fx_mul(load.magnitude@, length)->0;
        let b = fx_mul(Some(a), Some(t))->0;
        let c = fx_mul(Some(b), Some(u))->0;
        let d = fx_mul(Some(c), Some(u))->0;
        assert(fx_sub(fx_one(), load.a_b_value@) == Some(u));
        assert(m == -d);
        lemma_product_is_cut_off(p, l);
        lemma_product_is_cut_off(a, t);
        lemma_product_is_cut_off(b, u);
        lemma_product_is_cut_off(c, u);
        // the errors of the four products
        let e1 = p * l - a * s;
        let e2 = a * t - b * s;
        let e3 = b * u - c * s;
        let e4 = c * u - d * s;
        // the exact product, built up factor by factor
        let x1 = p * l;
        let x2 = x1 * t;
        let x3 = x2 * u;
        let x4 = x3 * u;
        // what the errors grow to
        let f2 = e1 * t;
        let f3 = f2 * u;
        let f4 = f3 * u;
        let g3 = e2 * u;
        let g4 = g3 * u;
        let h4 = e3 * u;
        let s2 = s * s;
        let s3 = s2 * s;
        let s4 = s3 * s;
        lemma_times_sum(a * s, e1, 0, 0, t);
        lemma_factor_moves(a, s, t);
        lemma_times_sum(b * s, e2, 0, 0, s);
        assert(x2 == b * s2 + e2 * s + f2) by {
            lemma_factor_moves(b, s, s);
            assert(b * s * s == b * s2) by (nonlinear_arith)
                requires
                    s2 == s * s,
            ;
        }
        lemma_times_sum(b * s2, e2 * s, f2, 0, u);
        lemma_factor_moves(b, s2, u);
        lemma_factor_moves(e2, s, u);
        lemma_times_sum(c * s, e3, 0, 0, s2);
        assert(x3 == c * s3 + e3 * s2 + g3 * s + f3) by {
            assert(c * s * s2 == c * s3) by (nonlinear_arith)
                requires
                    s3 == s2 * s,
            ;
        }
        lemma_times_sum(c * s3, e3 * s2, g3 * s, f3, u);
        lemma_factor_moves(c, s3, u);
        lemma_factor_moves(e3, s2, u);
        lemma_factor_moves(g3, s, u);
        lemma_times_sum(d * s, e4, 0, 0, s3);
        assert(x4 == d * s4 + e4 * s3 + h4 * s2 + g4 * s + f4) by {
            assert(d * s * s3 == d * s4) by (nonlinear_arith)
                requires
                    s4 == s3 * s,
            ;
        }
        let r = s - 1;
        lemma_error_shrinks(e1, t, r);
        lemma_error_shrinks(f2, u, r * s);
        lemma_error_shrinks(f3, u, r * s * s);
        lemma_error_shrinks(e2, u, r);
        lemma_error_shrinks(g3, u, r * s);
        lemma_error_shrinks(e3, u, r);
        assert(size(e4 * s3) <= r * s3 && size(h4 * s2) <= r * s3 && size(g4 * s) <= r * s3 && size(
            f4,
        ) <= r * s3 && 4 * (r * s3) < 4 * s4) by (nonlinear_arith)
            requires
                size(e4) <= r,
                size(h4) <= r * s,
                size(g4) <= r * s * s,
                size(f4) <= r * s * s * s,
                s2 == s * s,
                s3 == s2 * s,
                s4 == s3 * s,
                r == s - 1,
                s == 1_000_000_000,
        ;
        assert(m * s4 == -(d * s4)) by (nonlinear_arith)
            requires
                m == -d,
        ;
        assert(s4 == SCALE * SCALE * SCALE * SCALE) by (nonlinear_arith)
            requires
                s == SCALE,
                s2 == s * s,
                s3 == s2 * s,
                s4 == s3 * s,
        ;
    }
}

} // verus!
