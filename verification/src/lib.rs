//! Analysis of continuous beams by the moment distribution method.
//!
//! A beam is a row of spans over joints. From its geometry, its sections,
//! its supports and its loads the analysis works out the bending moments
//! at the ends of every span, and from those the shears, the reactions and
//! the deflections.
//!
//! - [`fixed`]: the numbers, decimal fixed-point with nine fractional
//!   digits;
//! - [`model`]: spans, joints and loads, and the invariant of a beam;
//! - [`fef`]: the fixed-end forces of a span, by closed formulas, and the
//!   sign convention;
//! - [`factors`]: stiffness, distribution and carry-over factors;
//! - [`solver`]: the rounds of balancing and carrying over;
//! - [`post`]: shears, reactions and deflections from the end moments;
//! - [`analysis`]: all of it in one call;
//! - [`results`], [`error`]: what an analysis hands back.
//!
//! Every function is verified against a contract over mathematical models:
//! a number is modelled by an integer count of billionths, or by nothing
//! if it is not representable; a row of values by a sequence.
pub mod analysis;
pub mod error;
pub mod factors;
pub mod fef;
pub mod fixed;
pub mod model;
pub mod post;
pub mod results;
pub mod solver;
