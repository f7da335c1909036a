use moment_distribution::error::{AnalysisError, Stage};
use moment_distribution::fef::{classify, FefError, FixedEndForces, Hold, LoadCase};
use moment_distribution::fixed::Fixed;
use moment_distribution::model::{
    AppliedLoad, AppliedLoadType, Beam, Node, Span, SpanType, SupportCondition,
};

fn whole(n: i64) -> Fixed {
    Fixed::from_int(n)
}

/// A span of length 6 and rigidity 20.
fn span_of(span_type: SpanType, at_i: SupportCondition, at_j: SupportCondition, loads: Vec<AppliedLoad>) -> Span {
    Span::new(span_type, whole(6), whole(200_000), Fixed::from_ratio(1, 10_000), at_i, at_j, loads)
}

fn held_at_both(loads: Vec<AppliedLoad>) -> Span {
    span_of(SpanType::FixedEnd, SupportCondition::Fixed, SupportCondition::Fixed, loads)
}

fn held_at_i(loads: Vec<AppliedLoad>) -> Span {
    span_of(SpanType::ProppedCantilever, SupportCondition::Fixed, SupportCondition::Roller, loads)
}

fn held_at_j(loads: Vec<AppliedLoad>) -> Span {
    span_of(SpanType::ProppedCantilever, SupportCondition::Pinned, SupportCondition::Fixed, loads)
}

fn raws(f: &FixedEndForces) -> [Option<i128>; 7] {
    [
        f.m_i.to_raw(),
        f.m_j.to_raw(),
        f.v_i.to_raw(),
        f.v_j.to_raw(),
        f.m_mid.to_raw(),
        f.defl_mid.to_raw(),
        f.slope_propped_end.and_then(|s| s.to_raw()),
    ]
}

fn expect(span: &Span, values: [i128; 6], slope: Option<i128>) {
    let f = span.fef_calc().expect("covered");
    let got = raws(&f);
    for k in 0..6 {
        assert_eq!(got[k], Some(values[k]), "value {k}");
    }
    assert_eq!(f.slope_propped_end.is_some(), slope.is_some());
    assert_eq!(got[6], slope);
}

#[test]
fn midspan_point_load_on_fixed_span() {
    // M_i = -PL/8, M_j = PL/8, deflection PL^3/(192EI)
    let span = held_at_both(vec![AppliedLoad::point(whole(1000), whole(3), whole(6))]);
    expect(
        &span,
        [
            -750_000_000_000,
            750_000_000_000,
            500_000_000_000,
            500_000_000_000,
            750_000_000_000,
            56_250_000_000,
        ],
        None,
    );
}

#[test]
fn midspan_point_load_on_propped_span() {
    // M = 3PL/16, shears 11P/16 and 5P/16, mid-span moment 5PL/32,
    // deflection 7PL^3/(768EI), slope PL^2/(32EI) at the prop
    let load = AppliedLoad::point(whole(1000), whole(3), whole(6));
    expect(
        &held_at_i(vec![load]),
        [
            -1_125_000_000_000,
            0,
            687_500_000_000,
            312_500_000_000,
            937_500_000_000,
            98_437_500_000,
        ],
        Some(-56_250_000_000),
    );
    expect(
        &held_at_j(vec![load]),
        [
            0,
            1_125_000_000_000,
            312_500_000_000,
            687_500_000_000,
            937_500_000_000,
            98_437_500_000,
        ],
        Some(56_250_000_000),
    );
}

#[test]
fn quarter_point_load() {
    // P = 64 at a = 2 of L = 8: Pab^2/L^2 = 72, Pa^2b/L^2 = 24
    let load = AppliedLoad::point(whole(64), whole(2), whole(8));
    let build = |span_type, at_i, at_j| {
        Span::new(span_type, whole(8), whole(20), whole(1), at_i, at_j, vec![load])
    };
    expect(
        &build(SpanType::FixedEnd, SupportCondition::Fixed, SupportCondition::Fixed),
        [
            -72_000_000_000,
            24_000_000_000,
            54_000_000_000,
            10_000_000_000,
            16_000_000_000,
            4_266_666_666,
        ],
        None,
    );
    // Pab(L+b)/(2L^2) = 84 with the far end propped
    expect(
        &build(SpanType::ProppedCantilever, SupportCondition::Fixed, SupportCondition::Pinned),
        [-84_000_000_000, 0, 58_500_000_000, 5_500_000_000, 22_000_000_000, 6_666_666_666],
        Some(-2_400_000_000),
    );
    // Pab(L+a)/(2L^2) = 60 with the near end propped
    expect(
        &build(SpanType::ProppedCantilever, SupportCondition::Roller, SupportCondition::Fixed),
        [0, 60_000_000_000, 40_500_000_000, 23_500_000_000, 34_000_000_000, 11_466_666_666],
        Some(7_200_000_000),
    );
}

#[test]
fn uniform_load() {
    // w = 10 on L = 6: wL^2/12 = 30, wL^2/24 = 15, wL^4/(384EI) = 1.6875
    let w = AppliedLoad::uniform(whole(10));
    expect(
        &held_at_both(vec![w]),
        [
            -30_000_000_000,
            30_000_000_000,
            30_000_000_000,
            30_000_000_000,
            15_000_000_000,
            1_687_500_000,
        ],
        None,
    );
    // 3wL^2/16 = 67.5 at the held end
    expect(
        &held_at_i(vec![w]),
        [-67_500_000_000, 0, 41_250_000_000, 18_750_000_000, 11_250_000_000, 843_750_000],
        Some(-1_125_000_000),
    );
    expect(
        &held_at_j(vec![w]),
        [0, 67_500_000_000, 18_750_000_000, 41_250_000_000, 11_250_000_000, 843_750_000],
        Some(1_125_000_000),
    );
}

#[test]
fn load_rising_towards_j() {
    // wL^2/30 = 12 and wL^2/20 = 18; shears 3wL/20 and 7wL/20
    let w = AppliedLoad::linearly_varying(whole(10), true);
    expect(
        &held_at_both(vec![w]),
        [-12_000_000_000, 18_000_000_000, 9_000_000_000, 21_000_000_000, 7_500_000_000, 843_750_000],
        None,
    );
    // 7wL^2/120 = 21; shears 9wL/40 and 11wL/40
    expect(
        &held_at_i(vec![w]),
        [-21_000_000_000, 0, 13_500_000_000, 16_500_000_000, 12_000_000_000, 1_856_250_000],
        Some(-1_350_000_000),
    );
    // wL^2/15 = 24; shears wL/10 and 2wL/5
    expect(
        &held_at_j(vec![w]),
        [0, 24_000_000_000, 6_000_000_000, 24_000_000_000, 10_500_000_000, 1_518_750_000],
        Some(900_000_000),
    );
}

#[test]
fn load_rising_towards_i() {
    let w = AppliedLoad::linearly_varying(whole(10), false);
    expect(
        &held_at_both(vec![w]),
        [-18_000_000_000, 12_000_000_000, 21_000_000_000, 9_000_000_000, 7_500_000_000, 843_750_000],
        None,
    );
    expect(
        &held_at_i(vec![w]),
        [-24_000_000_000, 0, 24_000_000_000, 6_000_000_000, 10_500_000_000, 1_518_750_000],
        Some(-900_000_000),
    );
    expect(
        &held_at_j(vec![w]),
        [0, 21_000_000_000, 16_500_000_000, 13_500_000_000, 12_000_000_000, 1_856_250_000],
        Some(1_350_000_000),
    );
}

#[test]
fn uniform_loads_give_opposite_end_moments() {
    for w in [1, 7, -13, 1000, 333] {
        for length in [1, 5, 7, 11] {
            let span = Span::new(
                SpanType::FixedEnd,
                whole(length),
                whole(3),
                whole(1),
                SupportCondition::Fixed,
                SupportCondition::Fixed,
                vec![AppliedLoad::uniform(Fixed::from_ratio(w, 7))],
            );
            let f = span.fef_calc().expect("covered");
            assert_eq!(f.m_i.to_raw(), f.m_j.neg().to_raw());
            assert_eq!(f.m_i.to_raw().map(|m| -m), f.m_j.to_raw());
            assert_eq!(f.v_i.to_raw(), f.v_j.to_raw());
        }
    }
    // and so do several of them together
    let span = held_at_both(vec![
        AppliedLoad::uniform(Fixed::from_ratio(10, 3)),
        AppliedLoad::uniform(Fixed::from_ratio(-7, 11)),
        AppliedLoad::uniform(whole(2)),
    ]);
    let f = span.fef_calc().expect("covered");
    assert_eq!(f.m_i.to_raw().map(|m| -m), f.m_j.to_raw());
    assert!(f.m_j.to_raw().unwrap() > 0);
}

#[test]
fn a_propped_end_carries_no_moment() {
    let loads = vec![
        AppliedLoad::uniform(Fixed::from_ratio(10, 3)),
        AppliedLoad::point(whole(17), whole(5), whole(6)),
        AppliedLoad::linearly_varying(whole(4), true),
        AppliedLoad::linearly_varying(whole(9), false),
    ];
    let f = held_at_i(loads.clone()).fef_calc().expect("covered");
    assert_eq!(f.m_j.to_raw(), Some(0));
    assert!(f.m_i.to_raw().unwrap() < 0);
    let f = held_at_j(loads.clone()).fef_calc().expect("covered");
    assert_eq!(f.m_i.to_raw(), Some(0));
    assert!(f.m_j.to_raw().unwrap() > 0);
    // an internal hinge props an end as a roller does
    let hinged = span_of(
        SpanType::ProppedCantilever,
        SupportCondition::InternalHinge,
        SupportCondition::Fixed,
        loads,
    );
    assert_eq!(hinged.find_hold(), Some(Hold::AtJ));
    assert_eq!(hinged.fef_calc().expect("covered").m_i.to_raw(), Some(0));
}

#[test]
fn loads_are_superposed() {
    let a = AppliedLoad::uniform(whole(10));
    let b = AppliedLoad::point(whole(1000), whole(3), whole(6));
    let c = AppliedLoad::linearly_varying(whole(10), true);
    let f = held_at_both(vec![a, b, c]).fef_calc().expect("covered");
    assert_eq!(f.m_i.to_raw(), Some(-30_000_000_000 - 750_000_000_000 - 12_000_000_000));
    assert_eq!(f.m_j.to_raw(), Some(30_000_000_000 + 750_000_000_000 + 18_000_000_000));
    assert_eq!(f.v_i.to_raw(), Some(30_000_000_000 + 500_000_000_000 + 9_000_000_000));
    assert_eq!(f.v_j.to_raw(), Some(30_000_000_000 + 500_000_000_000 + 21_000_000_000));
    assert_eq!(f.m_mid.to_raw(), Some(15_000_000_000 + 750_000_000_000 + 7_500_000_000));
    assert_eq!(f.defl_mid.to_raw(), Some(1_687_500_000 + 56_250_000_000 + 843_750_000));
}

#[test]
fn a_span_without_loads_has_no_forces() {
    expect(&held_at_both(vec![]), [0; 6], None);
    expect(&held_at_i(vec![]), [0; 6], Some(0));
    expect(&held_at_j(vec![]), [0; 6], Some(0));
}

#[test]
fn an_upward_load_turns_every_sign() {
    let down = held_at_i(vec![AppliedLoad::point(whole(1000), whole(3), whole(6))]);
    let up = held_at_i(vec![AppliedLoad::point(whole(-1000), whole(3), whole(6))]);
    let d = raws(&down.fef_calc().expect("covered"));
    let u = raws(&up.fef_calc().expect("covered"));
    for k in 0..7 {
        assert_eq!(d[k].map(|x| -x), u[k]);
    }
}

#[test]
#[allow(non_snake_case)]
fn the_ends_decide_which_end_of_a_propped_span_is_held() {
    let (F, P, R, H) = (
        SupportCondition::Fixed,
        SupportCondition::Pinned,
        SupportCondition::Roller,
        SupportCondition::InternalHinge,
    );
    let hold = |t, a, b| span_of(t, a, b, vec![]).find_hold();
    assert_eq!(hold(SpanType::ProppedCantilever, F, P), Some(Hold::AtI));
    assert_eq!(hold(SpanType::ProppedCantilever, F, R), Some(Hold::AtI));
    assert_eq!(hold(SpanType::ProppedCantilever, F, H), Some(Hold::AtI));
    assert_eq!(hold(SpanType::ProppedCantilever, P, F), Some(Hold::AtJ));
    assert_eq!(hold(SpanType::ProppedCantilever, R, F), Some(Hold::AtJ));
    assert_eq!(hold(SpanType::ProppedCantilever, F, F), None);
    assert_eq!(hold(SpanType::ProppedCantilever, P, R), None);
    assert_eq!(hold(SpanType::ProppedCantilever, H, H), None);
    for a in [F, P, R, H] {
        for b in [F, P, R, H] {
            assert_eq!(hold(SpanType::FixedEnd, a, b), Some(Hold::Both));
        }
    }
    let mut odd = span_of(SpanType::ProppedCantilever, F, P, vec![]);
    odd.support_conditions.push(R);
    assert_eq!(odd.find_hold(), None);
    odd.span_type = SpanType::FixedEnd;
    assert_eq!(odd.find_hold(), Some(Hold::Both));
}

#[test]
fn loads_fall_into_formula_cases() {
    assert_eq!(classify(&AppliedLoad::uniform(whole(1))), Some(LoadCase::Uniform));
    assert_eq!(classify(&AppliedLoad::point(whole(1), whole(1), whole(2))), Some(LoadCase::Point));
    assert_eq!(classify(&AppliedLoad::linearly_varying(whole(1), true)), Some(LoadCase::PeakAtJ));
    assert_eq!(classify(&AppliedLoad::linearly_varying(whole(1), false)), Some(LoadCase::PeakAtI));
    let mut inside = AppliedLoad::linearly_varying(whole(1), true);
    inside.a_b_value = Fixed::from_ratio(1, 2);
    assert_eq!(classify(&inside), None);
    inside.a_b_value = Fixed::unrepresentable();
    assert_eq!(classify(&inside), None);
}

#[test]
fn a_peak_inside_the_span_is_not_covered() {
    let mut inside = AppliedLoad::linearly_varying(whole(1), true);
    inside.a_b_value = Fixed::from_ratio(1, 2);
    let span = held_at_both(vec![AppliedLoad::uniform(whole(1)), inside, inside]);
    assert_eq!(span.fef_calc().err(), Some(FefError::UnsupportedLoadSpanCombination { load: 1 }));
}

#[test]
fn a_propped_span_without_one_held_end_is_not_covered() {
    let both = span_of(
        SpanType::ProppedCantilever,
        SupportCondition::Fixed,
        SupportCondition::Fixed,
        vec![AppliedLoad::uniform(whole(1)), AppliedLoad::uniform(whole(1))],
    );
    assert_eq!(both.fef_calc().err(), Some(FefError::UnsupportedLoadSpanCombination { load: 0 }));
    let neither = span_of(
        SpanType::ProppedCantilever,
        SupportCondition::Pinned,
        SupportCondition::Roller,
        vec![AppliedLoad::point(whole(1), whole(1), whole(6))],
    );
    assert_eq!(neither.fef_calc().err(), Some(FefError::UnsupportedLoadSpanCombination { load: 0 }));
    // without loads there is nothing that is not covered
    let idle = span_of(
        SpanType::ProppedCantilever,
        SupportCondition::Pinned,
        SupportCondition::Roller,
        vec![],
    );
    let f = idle.fef_calc().expect("no load");
    assert_eq!(f.m_i.to_raw(), Some(0));
    assert!(f.slope_propped_end.is_none());
}

#[test]
fn forces_beyond_the_range_are_an_overflow() {
    let huge = Fixed::from_raw(i128::MAX / 2);
    let span = held_at_both(vec![AppliedLoad::uniform(huge)]);
    assert_eq!(span.fef_calc().err(), Some(FefError::Overflow));
    let span = held_at_both(vec![AppliedLoad::uniform(Fixed::unrepresentable())]);
    assert_eq!(span.fef_calc().err(), Some(FefError::Overflow));
    // what is not covered is named before what overflows
    let mut inside = AppliedLoad::linearly_varying(whole(1), true);
    inside.a_b_value = Fixed::from_ratio(1, 3);
    let span = held_at_both(vec![AppliedLoad::uniform(huge), inside]);
    assert_eq!(span.fef_calc().err(), Some(FefError::UnsupportedLoadSpanCombination { load: 1 }));
}

#[test]
fn a_beam_gives_the_forces_of_each_span() {
    let beam = Beam {
        spans: vec![
            held_at_both(vec![AppliedLoad::uniform(whole(10))]),
            held_at_i(vec![AppliedLoad::point(whole(1000), whole(3), whole(6))]),
            held_at_both(vec![]),
        ],
        nodes: vec![Node::free(); 4],
        loads: vec![],
    };
    let f = beam.fef_calc().expect("covered");
    assert_eq!(f.len(), 3);
    assert_eq!(f[0].m_i.to_raw(), Some(-30_000_000_000));
    assert_eq!(f[0].m_j.to_raw(), Some(30_000_000_000));
    assert_eq!(f[1].m_i.to_raw(), Some(-1_125_000_000_000));
    assert_eq!(f[1].m_j.to_raw(), Some(0));
    assert_eq!(f[1].slope_propped_end.and_then(|s| s.to_raw()), Some(-56_250_000_000));
    assert_eq!(f[2].m_i.to_raw(), Some(0));
    let none = Beam { spans: vec![], nodes: vec![Node::free()], loads: vec![] };
    assert!(none.fef_calc().expect("nothing to cover").is_empty());
}

#[test]
fn a_beam_names_the_span_that_fails() {
    let mut inside = AppliedLoad::linearly_varying(whole(1), true);
    inside.a_b_value = Fixed::from_ratio(1, 2);
    let beam = Beam {
        spans: vec![
            held_at_both(vec![AppliedLoad::uniform(whole(10))]),
            held_at_both(vec![AppliedLoad::uniform(whole(10)), inside]),
            held_at_both(vec![AppliedLoad::uniform(Fixed::from_raw(i128::MAX / 2))]),
        ],
        nodes: vec![Node::free(); 4],
        loads: vec![],
    };
    match beam.fef_calc() {
        Err(AnalysisError::UnsupportedLoadSpanCombination { span, load }) => {
            assert_eq!((span, load), (1, 1));
        },
        other => panic!("unexpected {other:?}"),
    }
    let mut beam = beam;
    beam.spans[1].applied_loads.pop();
    match beam.fef_calc() {
        Err(AnalysisError::Overflow(stage)) => {
            assert_eq!(stage, Stage::FixedEndForces { span: 2 });
        },
        other => panic!("unexpected {other:?}"),
    }
}

#[test]
fn load_types_keep_apart() {
    assert_ne!(AppliedLoadType::PointLoad, AppliedLoadType::UniformLoad);
    assert_ne!(AppliedLoadType::UniformLoad, AppliedLoadType::LinearlyVarying);
}
