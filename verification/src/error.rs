//! The ways in which an analysis can fail.
use crate::fixed::Fixed;
use crate::model::ModelDefect;
use crate::results::Results;
use vstd::prelude::*;

verus! {

/// The step of an analysis at which a number left the representable range.
#[derive(Clone, Copy, Debug, PartialEq, Eq, Structural)]
pub enum Stage {
    /// The fixed-end forces of a span.
    FixedEndForces { span: usize },
    /// The factors of a joint.
    Factors { joint: usize },
    /// The convergence tolerance.
    Tolerance,
    /// A round of moment distribution.
    Distribution,
    /// The shears, reactions and deflections.
    Results,
}

/// Why an analysis did not give a converged outcome.
#[derive(Clone, Debug)]
pub enum AnalysisError {
    /// The model breaks its invariant. Nothing was computed.
    InvalidBeamModel(ModelDefect),
    /// No formula covers a load of a span.
    UnsupportedLoadSpanCombination { span: usize, load: usize },
    /// A joint that is not clamped has no stiffness to share out.
    DegenerateJoint { joint: usize },
    /// The rounds ran out before the joints were in balance. The outcome
    /// reached is handed back, with the largest unbalance that is left.
    NonConvergence { partial: Results, unbalance: Fixed },
    /// A number left the representable range.
    Overflow(Stage),
}

} // verus!
