use moment_distribution::analysis::{
    analyze, effective_tolerance, start_moments, SolverConfig, Tolerance,
};
use moment_distribution::error::{AnalysisError, Stage};
use moment_distribution::fixed::Fixed;
use moment_distribution::model::{
    AppliedLoad, AppliedLoadType, Beam, ModelDefect, Node, Span, SpanType, SupportCondition,
};
use moment_distribution::post::post_process;
use moment_distribution::results::Results;
use moment_distribution::solver::{EndMoments, Solution};

fn whole(n: i64) -> Fixed {
    Fixed::from_int(n)
}

fn num(x: f64) -> Fixed {
    Fixed::from_raw((x * 1e9).round() as i128)
}

fn val(x: Fixed) -> f64 {
    x.to_raw().expect("a number") as f64 / 1e9
}

const FIXED: SupportCondition = SupportCondition::Fixed;
const PINNED: SupportCondition = SupportCondition::Pinned;
const ROLLER: SupportCondition = SupportCondition::Roller;
const HINGE: SupportCondition = SupportCondition::InternalHinge;

fn held(length: i64, e: i64, i: i64, loads: Vec<AppliedLoad>) -> Span {
    Span::new(SpanType::FixedEnd, whole(length), whole(e), whole(i), FIXED, FIXED, loads)
}

fn supports(conditions: &[SupportCondition]) -> Vec<Node> {
    conditions.iter().map(|&c| Node::support(c)).collect()
}

fn absolute(tolerance: f64, max_rounds: usize) -> SolverConfig {
    SolverConfig { tolerance: Tolerance::Absolute(num(tolerance)), max_rounds }
}

fn two_equal_spans(w: i64) -> Beam {
    Beam {
        spans: vec![
            Span::new(
                SpanType::FixedEnd,
                whole(10),
                whole(1),
                whole(1),
                PINNED,
                FIXED,
                vec![AppliedLoad::uniform(whole(w))],
            ),
            Span::new(
                SpanType::FixedEnd,
                whole(10),
                whole(1),
                whole(1),
                FIXED,
                ROLLER,
                vec![AppliedLoad::uniform(whole(w))],
            ),
        ],
        nodes: supports(&[PINNED, ROLLER, ROLLER]),
        loads: vec![],
    }
}

fn three_spans() -> Beam {
    Beam {
        spans: vec![
            held(4, 200, 2, vec![AppliedLoad::uniform(whole(12))]),
            held(6, 200, 1, vec![AppliedLoad::point(whole(30), whole(2), whole(6))]),
            held(5, 200, 3, vec![]),
        ],
        nodes: supports(&[FIXED, ROLLER, ROLLER, FIXED]),
        loads: vec![],
    }
}

fn span_raws(r: &Results, s: usize) -> [i128; 6] {
    let x = &r.spans[s];
    [x.m_i, x.m_j, x.v_i, x.v_j, x.m_mid, x.defl_mid].map(|v| v.to_raw().expect("a number"))
}

fn joint_raws(r: &Results, j: usize) -> [i128; 2] {
    [r.joints[j].reaction, r.joints[j].net_moment].map(|v| v.to_raw().expect("a number"))
}

#[test]
fn the_defaults_are_a_millionth_and_fifty_rounds() {
    let config = SolverConfig::default();
    assert_eq!(config.max_rounds, 50);
    match config.tolerance {
        Tolerance::Relative(f) => assert_eq!(f.to_raw(), Some(1_000)),
        other => panic!("unexpected {other:?}"),
    }
}

#[test]
fn two_equal_spans_under_uniform_load() {
    // L = 10, EI = 1, w = 10: the moment over the middle support is wL^2/8
    let results = analyze(&two_equal_spans(10), &SolverConfig::default()).expect("converges");
    assert_eq!(results.rounds, 1);
    let left = val(results.spans[0].m_j);
    let right = val(results.spans[1].m_i);
    assert!((left - 125.0).abs() < 0.125, "left of the support: {left}");
    assert!((right + 125.0).abs() < 0.125, "right of the support: {right}");
    assert_eq!(
        span_raws(&results, 0),
        [0, 124_999_999_999, 37_500_000_001, 62_499_999_999, 62_500_000_000, 520_833_333_339]
    );
    assert_eq!(
        span_raws(&results, 1),
        [-124_999_999_999, 0, 62_499_999_999, 37_500_000_001, 62_500_000_000, 520_833_333_339]
    );
    // reactions of 3wL/8 at the ends and 10wL/8 in the middle
    assert_eq!(joint_raws(&results, 0), [37_500_000_001, 0]);
    assert_eq!(joint_raws(&results, 1), [124_999_999_998, 0]);
    assert_eq!(joint_raws(&results, 2), [37_500_000_001, 0]);
    assert_eq!(results.unbalance.to_raw(), Some(0));
}

#[test]
fn two_equal_spans_whatever_the_load() {
    for w in [1, 3, 10, 250, -40] {
        let results = analyze(&two_equal_spans(w), &SolverConfig::default()).expect("converges");
        let expected = w as f64 * 100.0 / 8.0;
        assert!((val(results.spans[0].m_j) - expected).abs() <= expected.abs() * 1e-3);
        assert!((val(results.spans[1].m_i) + expected).abs() <= expected.abs() * 1e-3);
        assert_eq!(results.spans[0].m_j.to_raw(), results.spans[1].m_i.neg().to_raw());
    }
}

#[test]
fn a_single_fixed_span_keeps_its_fixed_end_forces() {
    let beam = Beam {
        spans: vec![Span::new(
            SpanType::FixedEnd,
            whole(6),
            whole(200_000),
            Fixed::from_ratio(1, 10_000),
            FIXED,
            FIXED,
            vec![AppliedLoad::point(whole(1000), whole(3), whole(6))],
        )],
        nodes: supports(&[FIXED, FIXED]),
        loads: vec![],
    };
    let results = analyze(&beam, &SolverConfig::default()).expect("nothing to balance");
    assert_eq!(results.rounds, 0);
    assert_eq!(
        span_raws(&results, 0),
        [
            -750_000_000_000,
            750_000_000_000,
            500_000_000_000,
            500_000_000_000,
            750_000_000_000,
            56_250_000_000
        ]
    );
    // the clamped joints take up the end moments
    assert_eq!(joint_raws(&results, 0), [500_000_000_000, -750_000_000_000]);
    assert_eq!(joint_raws(&results, 1), [500_000_000_000, 750_000_000_000]);
}

#[test]
fn one_round_is_not_enough_for_three_spans() {
    match analyze(&three_spans(), &absolute(0.001, 1)) {
        Err(AnalysisError::NonConvergence { partial, unbalance }) => {
            assert_eq!(partial.rounds, 1);
            assert_eq!(unbalance.to_raw(), Some(1_449_275_369));
            assert_eq!(partial.unbalance.to_raw(), Some(1_449_275_369));
            assert_eq!(partial.spans.len(), 3);
            assert_eq!(partial.joints.len(), 4);
            assert_eq!(
                span_raws(&partial, 1),
                [
                    -25_449_275_367,
                    11_768_115_925,
                    22_280_193_240,
                    7_719_806_760,
                    11_391_304_324,
                    156_304_348
                ]
            );
            assert_eq!(joint_raws(&partial, 1), [49_280_193_239, -1_449_275_369]);
            assert_eq!(joint_raws(&partial, 2), [10_850_241_535, 1_333_333_341]);
        },
        other => panic!("unexpected {other:?}"),
    }
}

#[test]
fn three_spans_converge() {
    let results = analyze(&three_spans(), &absolute(0.001, 50)).expect("converges");
    assert_eq!(results.rounds, 5);
    assert_eq!(results.unbalance.to_raw(), Some(267_545));
    assert_eq!(
        span_raws(&results, 0),
        [-11_394_051_275, 25_211_897_452, 20_545_538_456, 27_454_461_544, 5_697_025_637, 8_485_129]
    );
    assert_eq!(
        span_raws(&results, 1),
        [
            -25_212_164_997,
            11_636_387_940,
            22_262_629_509,
            7_737_370_491,
            11_575_723_501,
            160_453_780
        ]
    );
    assert_eq!(
        span_raws(&results, 2),
        [-11_636_141_799, -5_818_070_898, 3_490_842_539, -3_490_842_539, -2_909_035_450, -15_151_226]
    );
    assert_eq!(joint_raws(&results, 0), [20_545_538_456, -11_394_051_275]);
    assert_eq!(joint_raws(&results, 1), [49_717_091_053, -267_545]);
    assert_eq!(joint_raws(&results, 2), [11_228_213_030, 246_141]);
    assert_eq!(joint_raws(&results, 3), [-3_490_842_539, -5_818_070_898]);
}

#[test]
fn joints_that_are_not_clamped_end_in_equilibrium() {
    for tolerance in [1.0, 0.01, 0.000_1, 0.000_001] {
        let results = analyze(&three_spans(), &absolute(tolerance, 50)).expect("converges");
        for j in [1, 2] {
            assert!(val(results.joints[j].net_moment).abs() < tolerance);
        }
        assert!(val(results.unbalance) < tolerance);
        // the clamped ends hold what reached them
        assert!(val(results.joints[0].net_moment).abs() > 1.0);
    }
}

#[test]
fn the_reactions_carry_the_loads() {
    let results = analyze(&three_spans(), &absolute(0.000_001, 50)).expect("converges");
    let total: f64 = results.joints.iter().map(|j| val(j.reaction)).sum();
    assert!((total - (12.0 * 4.0 + 30.0)).abs() < 1e-6);
    let results = analyze(&two_equal_spans(10), &SolverConfig::default()).expect("converges");
    let total: f64 = results.joints.iter().map(|j| val(j.reaction)).sum();
    assert!((total - 200.0).abs() < 1e-6);
}

#[test]
fn a_load_at_a_joint_goes_into_its_reaction() {
    let mut beam = two_equal_spans(10);
    beam.nodes[1].applied_load = Some(AppliedLoad {
        load_type: AppliedLoadType::PointLoad,
        magnitude: whole(40),
        x_value: Fixed::zero(),
        a_b_value: Fixed::zero(),
    });
    // not before the joint is marked as loaded
    let results = analyze(&beam, &SolverConfig::default()).expect("converges");
    assert_eq!(joint_raws(&results, 1), [124_999_999_998, 0]);
    beam.nodes[1].is_loaded = true;
    let results = analyze(&beam, &SolverConfig::default()).expect("converges");
    assert_eq!(joint_raws(&results, 0), [37_500_000_001, 0]);
    assert_eq!(joint_raws(&results, 1), [164_999_999_998, 0]);
    assert_eq!(span_raws(&results, 0)[1], 124_999_999_999);
}

#[test]
fn no_moment_crosses_a_hinge() {
    let beam = Beam {
        spans: vec![
            Span::new(
                SpanType::ProppedCantilever,
                whole(6),
                whole(200_000),
                Fixed::from_ratio(1, 10_000),
                FIXED,
                HINGE,
                vec![AppliedLoad::uniform(whole(10))],
            ),
            Span::new(
                SpanType::FixedEnd,
                whole(6),
                whole(200_000),
                Fixed::from_ratio(1, 10_000),
                FIXED,
                FIXED,
                vec![AppliedLoad::uniform(whole(10))],
            ),
        ],
        nodes: supports(&[FIXED, HINGE, FIXED]),
        loads: vec![],
    };
    let results = analyze(&beam, &absolute(0.001, 50)).expect("converges");
    assert_eq!(results.rounds, 1);
    // the hinged side keeps its fixed-end forces
    assert_eq!(
        span_raws(&results, 0),
        [-67_500_000_000, 0, 41_250_000_000, 18_750_000_000, 11_250_000_000, 843_750_000]
    );
    // the other side lets go of its end moment: wL^2/8 at its far end
    assert_eq!(
        span_raws(&results, 1),
        [0, 45_000_000_000, 22_500_000_000, 37_500_000_000, 22_500_000_000, 3_375_000_000]
    );
    assert_eq!(joint_raws(&results, 1), [41_250_000_000, 0]);
}

#[test]
fn the_relative_tolerance_follows_the_largest_fixed_end_moment() {
    let forces = three_spans().fef_calc().expect("covered");
    // the largest is 26.666666665
    let hundredth = Tolerance::Relative(Fixed::from_ratio(1, 100));
    assert_eq!(effective_tolerance(&hundredth, &forces).to_raw(), Some(266_666_666));
    let given = Tolerance::Absolute(whole(3));
    assert_eq!(effective_tolerance(&given, &forces).to_raw(), Some(3_000_000_000));
    // never less than the smallest positive moment
    let none = three_spans_without_loads().fef_calc().expect("covered");
    assert_eq!(effective_tolerance(&hundredth, &none).to_raw(), Some(1));
    assert_eq!(effective_tolerance(&Tolerance::Relative(Fixed::zero()), &forces).to_raw(), Some(1));
    assert_eq!(effective_tolerance(&hundredth, &vec![]).to_raw(), Some(1));
    assert_eq!(
        effective_tolerance(&Tolerance::Relative(Fixed::unrepresentable()), &forces).to_raw(),
        None
    );
    let config = SolverConfig { tolerance: hundredth, max_rounds: 50 };
    let results = analyze(&three_spans(), &config).expect("converges");
    assert!(results.unbalance.lt(Fixed::from_raw(266_666_666)));
    assert!(results.rounds < 5);
}

fn three_spans_without_loads() -> Beam {
    let mut beam = three_spans();
    for span in beam.spans.iter_mut() {
        span.applied_loads.clear();
    }
    beam
}

#[test]
fn a_beam_without_loads_is_at_rest() {
    let results = analyze(&three_spans_without_loads(), &SolverConfig::default()).expect("at rest");
    assert_eq!(results.rounds, 0);
    for s in 0..3 {
        assert_eq!(span_raws(&results, s), [0; 6]);
    }
    for j in 0..4 {
        assert_eq!(joint_raws(&results, j), [0; 2]);
    }
}

#[test]
fn the_solver_starts_from_the_fixed_end_moments() {
    let forces = three_spans().fef_calc().expect("covered");
    let start = start_moments(&forces);
    assert_eq!(start.len(), 3);
    assert_eq!(start[0].m_i.to_raw(), Some(-16_000_000_000));
    assert_eq!(start[0].m_j.to_raw(), Some(16_000_000_000));
    assert_eq!(start[1].m_i.to_raw(), Some(-26_666_666_665));
    assert_eq!(start[1].m_j.to_raw(), Some(13_333_333_313));
    assert_eq!(start[2].m_i.to_raw(), Some(0));
}

#[test]
fn forces_follow_the_end_moments() {
    let beam = three_spans();
    let forces = beam.fef_calc().expect("covered");
    // the fixed-end moments themselves: nothing to correct
    let kept = Solution { moments: start_moments(&forces), rounds: 0, unbalance: whole(0) };
    let results = post_process(&beam, &forces, &kept);
    for s in 0..3 {
        let f = &forces[s];
        let expected = [f.m_i, f.m_j, f.v_i, f.v_j, f.m_mid, f.defl_mid].map(|v| v.to_raw().unwrap());
        assert_eq!(span_raws(&results, s), expected);
    }
    // 8 more at both ends of the first span: the shears move by 16 / 4,
    // mid-span moment and deflection stay
    let mut moments = start_moments(&forces);
    moments[0] = EndMoments { m_i: whole(-8), m_j: whole(24) };
    let moved = Solution { moments, rounds: 3, unbalance: whole(2) };
    let results = post_process(&beam, &forces, &moved);
    assert_eq!(
        span_raws(&results, 0),
        [-8_000_000_000, 24_000_000_000, 20_000_000_000, 28_000_000_000, 8_000_000_000, 20_000_000]
    );
    assert_eq!(results.rounds, 3);
    assert_eq!(results.unbalance.to_raw(), Some(2_000_000_000));
    // 8 more at the i end alone: 2 off the shear there, 4 on the mid-span
    // moment, 8 * 16 / (16 * 400) = 0.02 on the deflection of 0.02
    let mut moments = start_moments(&forces);
    moments[0] = EndMoments { m_i: whole(-8), m_j: whole(16) };
    let results = post_process(&beam, &forces, &Solution { moments, rounds: 0, unbalance: whole(0) });
    assert_eq!(
        span_raws(&results, 0),
        [-8_000_000_000, 16_000_000_000, 22_000_000_000, 26_000_000_000, 12_000_000_000, 40_000_000]
    );
    assert_eq!(joint_raws(&results, 0), [22_000_000_000, -8_000_000_000]);
    assert_eq!(joint_raws(&results, 1)[1], 16_000_000_000 - 26_666_666_665);
}

#[test]
fn a_broken_model_is_turned_away() {
    let mut beam = three_spans();
    beam.spans[2].e_value = whole(-200);
    match analyze(&beam, &SolverConfig::default()) {
        Err(AnalysisError::InvalidBeamModel(d)) => assert_eq!(d, ModelDefect::SpanModulus { span: 2 }),
        other => panic!("unexpected {other:?}"),
    }
    let mut beam = three_spans();
    beam.nodes.push(Node::free());
    match analyze(&beam, &SolverConfig::default()) {
        Err(AnalysisError::InvalidBeamModel(d)) => {
            assert_eq!(d, ModelDefect::NodeCount { spans: 3, nodes: 5 })
        },
        other => panic!("unexpected {other:?}"),
    }
    let mut beam = three_spans();
    beam.spans[1].applied_loads[0].x_value = whole(7);
    match analyze(&beam, &SolverConfig::default()) {
        Err(AnalysisError::InvalidBeamModel(d)) => {
            assert_eq!(d, ModelDefect::LoadPosition { span: 1, load: 0 })
        },
        other => panic!("unexpected {other:?}"),
    }
}

#[test]
fn a_load_without_formula_is_named() {
    let mut beam = three_spans();
    let mut inside = AppliedLoad::linearly_varying(whole(5), true);
    inside.a_b_value = Fixed::from_ratio(1, 2);
    beam.spans[1].applied_loads.push(inside);
    match analyze(&beam, &SolverConfig::default()) {
        Err(AnalysisError::UnsupportedLoadSpanCombination { span, load }) => {
            assert_eq!((span, load), (1, 1))
        },
        other => panic!("unexpected {other:?}"),
    }
    let mut beam = three_spans();
    beam.spans[0].span_type = SpanType::ProppedCantilever;
    match analyze(&beam, &SolverConfig::default()) {
        Err(AnalysisError::UnsupportedLoadSpanCombination { span, load }) => {
            assert_eq!((span, load), (0, 0))
        },
        other => panic!("unexpected {other:?}"),
    }
}

#[test]
fn a_joint_without_stiffness_is_named() {
    let mut beam = three_spans();
    beam.spans[1].support_conditions = vec![FIXED, HINGE];
    beam.spans[2].support_conditions = vec![HINGE, FIXED];
    match analyze(&beam, &SolverConfig::default()) {
        Err(AnalysisError::DegenerateJoint { joint }) => assert_eq!(joint, 2),
        other => panic!("unexpected {other:?}"),
    }
}

#[test]
fn numbers_beyond_the_range_are_named_with_their_step() {
    // a load too large for its fixed-end forces
    let mut beam = three_spans();
    beam.spans[1].applied_loads[0].magnitude = Fixed::from_raw(i128::MAX / 2);
    match analyze(&beam, &SolverConfig::default()) {
        Err(AnalysisError::Overflow(stage)) => assert_eq!(stage, Stage::FixedEndForces { span: 1 }),
        other => panic!("unexpected {other:?}"),
    }
    // a rigidity too large for its stiffness
    let mut beam = three_spans_without_loads();
    beam.spans[2].e_value = Fixed::from_raw(100_000_000_000_000_000_000_000_000_000);
    beam.spans[2].i_value = Fixed::one();
    beam.spans[2].ei_value = beam.spans[2].e_value;
    match analyze(&beam, &SolverConfig::default()) {
        Err(AnalysisError::Overflow(stage)) => assert_eq!(stage, Stage::Factors { joint: 2 }),
        other => panic!("unexpected {other:?}"),
    }
    // a tolerance that is no number
    let config = SolverConfig { tolerance: Tolerance::Absolute(Fixed::unrepresentable()), max_rounds: 5 };
    match analyze(&three_spans(), &config) {
        Err(AnalysisError::Overflow(stage)) => assert_eq!(stage, Stage::Tolerance),
        other => panic!("unexpected {other:?}"),
    }
    let huge = Fixed::from_raw(i128::MAX);
    let config = SolverConfig { tolerance: Tolerance::Relative(huge), max_rounds: 5 };
    match analyze(&three_spans(), &config) {
        Err(AnalysisError::Overflow(stage)) => assert_eq!(stage, Stage::Tolerance),
        other => panic!("unexpected {other:?}"),
    }
}

#[test]
fn results_beyond_the_range_are_named_too() {
    // a light, stiff, long span beside a short one under a heavy load: the
    // end moments are found, the deflection of the long span is out of range
    let heavy = AppliedLoad {
        load_type: AppliedLoadType::PointLoad,
        magnitude: Fixed::from_raw(3_000_000_000_000_000_000_000_000_000),
        x_value: Fixed::from_raw(333_333_333),
        a_b_value: Fixed::from_raw(333_333_333),
    };
    let light = AppliedLoad::linearly_varying(Fixed::from_raw(1), false);
    let beam = Beam {
        spans: vec![
            Span::new(SpanType::FixedEnd, whole(1), whole(1), whole(1), FIXED, FIXED, vec![heavy]),
            Span::new(
                SpanType::FixedEnd,
                whole(1000),
                Fixed::from_raw(1_000_000_000_000_000_000_000_000_000),
                whole(1),
                PINNED,
                FIXED,
                vec![light; 5],
            ),
        ],
        nodes: vec![Node::support(FIXED), Node::support(ROLLER), Node::support(ROLLER)],
        loads: vec![],
    };
    assert_eq!(beam.validate(), Ok(()));
    assert!(beam.fef_calc().is_ok());
    match analyze(&beam, &absolute(0.001, 50)) {
        Err(AnalysisError::Overflow(stage)) => assert_eq!(stage, Stage::Results),
        other => panic!("unexpected {other:?}"),
    }
}

#[test]
fn the_first_failure_ends_the_analysis() {
    // a broken model comes before a load without formula, that before a
    // joint without stiffness
    let mut beam = three_spans();
    let mut inside = AppliedLoad::linearly_varying(whole(5), true);
    inside.a_b_value = Fixed::from_ratio(1, 2);
    beam.spans[2].applied_loads.push(inside);
    beam.spans[0].support_conditions = vec![FIXED, HINGE];
    beam.spans[1].support_conditions = vec![HINGE, FIXED];
    beam.loads.push(AppliedLoad {
        load_type: AppliedLoadType::UniformLoad,
        magnitude: Fixed::unrepresentable(),
        x_value: Fixed::zero(),
        a_b_value: Fixed::zero(),
    });
    assert!(matches!(
        analyze(&beam, &SolverConfig::default()),
        Err(AnalysisError::InvalidBeamModel(ModelDefect::BeamLoad { load: 0 }))
    ));
    beam.loads.clear();
    assert!(matches!(
        analyze(&beam, &SolverConfig::default()),
        Err(AnalysisError::UnsupportedLoadSpanCombination { span: 2, load: 0 })
    ));
    beam.spans[2].applied_loads.clear();
    assert!(matches!(
        analyze(&beam, &SolverConfig::default()),
        Err(AnalysisError::DegenerateJoint { joint: 1 })
    ));
}

#[test]
fn the_model_is_left_as_it_was() {
    let beam = three_spans();
    let first = analyze(&beam, &absolute(0.001, 50)).expect("converges");
    let second = analyze(&beam, &absolute(0.001, 50)).expect("converges");
    for s in 0..3 {
        assert_eq!(span_raws(&first, s), span_raws(&second, s));
    }
    assert_eq!(first.rounds, second.rounds);
    assert_eq!(beam.spans[0].applied_loads.len(), 1);
    assert_eq!(beam.validate(), Ok(()));
}
