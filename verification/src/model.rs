//! The beam model: spans, joints and loads, and what makes a model valid.
//!
//! A beam is a row of spans. Span `s` runs from joint `s` (its `i` end, on
//! the left) to joint `s + 1` (its `j` end). Loads act downwards when
//! positive. The model is only read by the analysis, never changed.
//!
//! Every joint is taken to be held in place, as the method of moment
//! distribution asks; only a joint whose support condition is `Fixed` is
//! held against rotation as well. A span says for each of its ends whether
//! the end is held against rotation for the span's purposes (`Fixed`: at
//! a clamped support, or continuous over a joint) or released (every other
//! condition).
use crate::fixed::{fx_div, fx_le, fx_lt, fx_mul, fx_one, fx_zero, Fixed, Num};
use vstd::prelude::*;

verus! {

/// How a span is held for the purpose of its fixed-end forces.
#[derive(Clone, Copy, Debug, PartialEq, Eq, Structural)]
pub enum SpanType {
    /// Both ends held against rotation.
    FixedEnd,
    /// One end held against rotation, the other propped: free to rotate.
    ProppedCantilever,
}

/// How a joint, or the end of a span, is held.
#[derive(Clone, Copy, Debug, PartialEq, Eq, Structural)]
pub enum SupportCondition {
    InternalHinge,
    Fixed,
    Pinned,
    Roller,
}

/// The kind of a load.
#[derive(Clone, Copy, Debug, PartialEq, Eq, Structural)]
pub enum AppliedLoadType {
    PointLoad,
    UniformLoad,
    LinearlyVarying,
}

/// One action on a span or at a joint.
#[derive(Clone, Copy, Debug)]
pub struct AppliedLoad {
    pub load_type: AppliedLoadType,
    /// Force for a point load, force per length otherwise; for a linearly
    /// varying load, the intensity at its peak.
    pub magnitude: Fixed,
    /// Distance from the left end of the span. The statics of a point load
    /// are taken from it.
    pub x_value: Fixed,
    /// Position along the span as a fraction of its length: of the load for
    /// a point load, of the peak for a linearly varying load. End moments,
    /// deflections and slopes are taken from it.
    pub a_b_value: Fixed,
}

/// A joint of the beam.
#[derive(Clone, Copy, Debug)]
pub struct Node {
    pub is_support: bool,
    pub is_loaded: bool,
    pub support_condition: Option<SupportCondition>,
    pub applied_load: Option<AppliedLoad>,
}

/// One beam segment between two joints.
#[derive(Clone, Debug)]
pub struct Span {
    pub span_type: SpanType,
    pub length: Fixed,
    pub e_value: Fixed,
    pub i_value: Fixed,
    /// Flexural rigidity, always the product of `e_value` and `i_value`.
    pub ei_value: Fixed,
    /// How the span's `i` end and `j` end are held, in this order.
    pub support_conditions: Vec<SupportCondition>,
    pub applied_loads: Vec<AppliedLoad>,
}

/// A continuous beam.
#[derive(Clone, Debug)]
pub struct Beam {
    pub spans: Vec<Span>,
    pub nodes: Vec<Node>,
    /// Loads recorded for the beam as a whole. The analysis takes each
    /// span's loads from the span and each joint's load from the joint.
    pub loads: Vec<AppliedLoad>,
}

/// What is wrong with a beam model, and where.
#[derive(Clone, Copy, Debug, PartialEq, Eq, Structural)]
pub enum ModelDefect {
    /// The beam does not have one joint more than it has spans.
    NodeCount { spans: usize, nodes: usize },
    /// A span's length is not a positive number.
    SpanLength { span: usize },
    /// A span's elastic modulus is not a positive number.
    SpanModulus { span: usize },
    /// A span's moment of inertia is not a positive number.
    SpanInertia { span: usize },
    /// A span's rigidity is not positive, or is not the product of its
    /// modulus and its moment of inertia.
    SpanRigidity { span: usize },
    /// A span does not name exactly two end conditions.
    SpanSupports { span: usize },
    /// A load's magnitude is not a number.
    LoadMagnitude { span: usize, load: usize },
    /// A load's distance lies outside its span.
    LoadPosition { span: usize, load: usize },
    /// A load's fractional position lies outside 0..1.
    LoadRatio { span: usize, load: usize },
    /// The load at a joint is malformed.
    NodeLoad { node: usize },
    /// A load recorded for the whole beam is malformed.
    BeamLoad { load: usize },
}

/// Whether a number is representable and greater than zero.
pub open spec fn positive(a: Num) -> bool {
    fx_lt(fx_zero(), a)
}

/// Whether a number lies in `0..=1`.
pub open spec fn unit_fraction(a: Num) -> bool {
    fx_le(fx_zero(), a) && fx_le(a, fx_one())
}

impl SupportCondition {
    /// Whether a span end held this way is free to rotate, so that it takes
    /// no moment.
    pub open spec fn releases(self) -> bool {
        self != SupportCondition::Fixed
    }

    /// Whether a span end held this way is free to rotate.
    pub fn is_released(&self) -> (b: bool)
        ensures
            b == self.releases(),
    {
        match self {
            SupportCondition::Fixed => false,
            _ => true,
        }
    }
}

impl AppliedLoad {
    /// A force `magnitude` at the distance `x` from the left end of a span
    /// of the given length.
    pub fn point(magnitude: Fixed, x: Fixed, length: Fixed) -> (r: AppliedLoad)
        ensures
            r.load_type == AppliedLoadType::PointLoad,
            r.magnitude == magnitude,
            r.x_value == x,
            r.a_b_value@ == fx_div(x@, length@),
    {
        AppliedLoad {
            load_type: AppliedLoadType::PointLoad,
            magnitude,
            x_value: x,
            a_b_value: x.div(length),
        }
    }

    /// The intensity `magnitude` over the whole span.
    pub fn uniform(magnitude: Fixed) -> (r: AppliedLoad)
        ensures
            r.load_type == AppliedLoadType::UniformLoad,
            r.magnitude == magnitude,
            r.x_value@ == fx_zero(),
            r.a_b_value@ == fx_zero(),
    {
        AppliedLoad {
            load_type: AppliedLoadType::UniformLoad,
            magnitude,
            x_value: Fixed::zero(),
            a_b_value: Fixed::zero(),
        }
    }

    /// An intensity that rises over the whole span from zero at one end to
    /// `magnitude` at the other: at the `j` end if `peak_at_j`, else at the
    /// `i` end.
    pub fn linearly_varying(magnitude: Fixed, peak_at_j: bool) -> (r: AppliedLoad)
        ensures
            r.load_type == AppliedLoadType::LinearlyVarying,
            r.magnitude == magnitude,
            r.x_value@ == fx_zero(),
            r.a_b_value@ == (if peak_at_j {
                fx_one()
            } else {
                fx_zero()
            }),
    {
        AppliedLoad {
            load_type: AppliedLoadType::LinearlyVarying,
            magnitude,
            x_value: Fixed::zero(),
            a_b_value: if peak_at_j {
                Fixed::one()
            } else {
                Fixed::zero()
            },
        }
    }

    /// The invariant of a load taken by itself.
    pub open spec fn well_formed(&self) -> bool {
        &&& self.magnitude@ is Some
        &&& fx_le(fx_zero(), self.x_value@)
        &&& unit_fraction(self.a_b_value@)
    }

    /// The invariant of a load on a span of the given length.
    pub open spec fn fits(&self, length: Num) -> bool {
        &&& self.well_formed()
        &&& fx_le(self.x_value@, length)
    }

    /// The first thing wrong with this load as load `index` of span `span`.
    pub open spec fn defect_on(&self, length: Num, span: usize, index: usize) -> Option<
        ModelDefect,
    > {
        if self.magnitude@ is None {
            Some(ModelDefect::LoadMagnitude { span, load: index })
        } else if !(fx_le(fx_zero(), self.x_value@) && fx_le(self.x_value@, length)) {
            Some(ModelDefect::LoadPosition { span, load: index })
        } else if !unit_fraction(self.a_b_value@) {
            Some(ModelDefect::LoadRatio { span, load: index })
        } else {
            None
        }
    }

    fn check_well_formed(&self) -> (b: bool)
        ensures
            b == self.well_formed(),
    {
        self.magnitude.is_finite() && Fixed::zero().le(self.x_value) && Fixed::zero().le(
            self.a_b_value,
        ) && self.a_b_value.le(Fixed::one())
    }

    fn check_on(&self, length: Fixed, span: usize, index: usize) -> (r: Option<ModelDefect>)
        ensures
            r == self.defect_on(length@, span, index),
    {
        if !self.magnitude.is_finite() {
            Some(ModelDefect::LoadMagnitude { span, load: index })
        } else if !(Fixed::zero().le(self.x_value) && self.x_value.le(length)) {
            Some(ModelDefect::LoadPosition { span, load: index })
        } else if !(Fixed::zero().le(self.a_b_value) && self.a_b_value.le(Fixed::one())) {
            Some(ModelDefect::LoadRatio { span, load: index })
        } else {
            None
        }
    }
}

impl Node {
    /// A joint that is a support of the given kind and carries no load.
    pub fn support(condition: SupportCondition) -> (r: Node)
        ensures
            r.condition() == Some(condition),
            r.load() == fx_zero(),
            r.well_formed(),
    {
        Node {
            is_support: true,
            is_loaded: false,
            support_condition: Some(condition),
            applied_load: None,
        }
    }

    /// A joint that is no support and carries no load.
    pub fn free() -> (r: Node)
        ensures
            r.condition() is None,
            r.load() == fx_zero(),
            r.well_formed(),
    {
        Node { is_support: false, is_loaded: false, support_condition: None, applied_load: None }
    }

    /// How the joint is held: its support condition if it is marked as a
    /// support, nothing otherwise.
    pub open spec fn condition(&self) -> Option<SupportCondition> {
        if self.is_support {
            self.support_condition
        } else {
            None
        }
    }

    /// Whether the joint is held against rotation. Such a joint takes up
    /// whatever moment reaches it and hands none on.
    pub open spec fn clamped(&self) -> bool {
        self.condition() == Some(SupportCondition::Fixed)
    }

    /// The force applied at the joint: the magnitude of its load, of
    /// whatever kind, if it is marked as loaded, zero otherwise.
    pub open spec fn load(&self) -> Num {
        if self.is_loaded && self.applied_load is Some {
            self.applied_load->0.magnitude@
        } else {
            fx_zero()
        }
    }

    /// The invariant of a joint: its load, if it has one, is well formed.
    pub open spec fn well_formed(&self) -> bool {
        self.applied_load matches Some(load) ==> load.well_formed()
    }

    /// Whether the joint is held against rotation.
    pub fn is_clamped(&self) -> (b: bool)
        ensures
            b == self.clamped(),
    {
        if self.is_support {
            match self.support_condition {
                Some(SupportCondition::Fixed) => true,
                _ => false,
            }
        } else {
            false
        }
    }

    /// The force applied at the joint.
    pub fn load_value(&self) -> (r: Fixed)
        ensures
            r@ == self.load(),
    {
        if self.is_loaded {
            match self.applied_load {
                Some(load) => load.magnitude,
                None => Fixed::zero(),
            }
        } else {
            Fixed::zero()
        }
    }

    fn check_well_formed(&self) -> (b: bool)
        ensures
            b == self.well_formed(),
    {
        match self.applied_load {
            Some(load) => load.check_well_formed(),
            None => true,
        }
    }
}

/// The first defect among the loads `from..` of a span.
pub open spec fn loads_defect(loads: Seq<AppliedLoad>, length: Num, span: usize, from: int) -> Option<
    ModelDefect,
>
    decreases loads.len() - from,
{
    if from < 0 || from >= loads.len() {
        None
    } else {
        match loads[from].defect_on(length, span, from as usize) {
            Some(d) => Some(d),
            None => loads_defect(loads, length, span, from + 1),
        }
    }
}

impl Span {
    /// The invariant of a span.
    pub open spec fn valid(&self) -> bool {
        &&& positive(self.length@)
        &&& positive(self.e_value@)
        &&& positive(self.i_value@)
        &&& positive(self.ei_value@)
        &&& self.ei_value@ == fx_mul(self.e_value@, self.i_value@)
        &&& self.support_conditions@.len() == 2
        &&& forall|l: int|
            0 <= l < self.applied_loads@.len() ==> (#[trigger] self.applied_loads@[l]).fits(
                self.length@,
            )
    }

    /// The first thing wrong with this span as span `index`.
    pub open spec fn defect(&self, index: usize) -> Option<ModelDefect> {
        if !positive(self.length@) {
            Some(ModelDefect::SpanLength { span: index })
        } else if !positive(self.e_value@) {
            Some(ModelDefect::SpanModulus { span: index })
        } else if !positive(self.i_value@) {
            Some(ModelDefect::SpanInertia { span: index })
        } else if !(positive(self.ei_value@) && self.ei_value@ == fx_mul(
            self.e_value@,
            self.i_value@,
        )) {
            Some(ModelDefect::SpanRigidity { span: index })
        } else if self.support_conditions@.len() != 2 {
            Some(ModelDefect::SpanSupports { span: index })
        } else {
            loads_defect(self.applied_loads@, self.length@, index, 0)
        }
    }

    /// A span has no defect exactly when it is valid.
    pub proof fn lemma_defect_none_iff_valid(&self, index: usize)
        ensures
            self.defect(index) is None <==> self.valid(),
    {
        Self::lemma_loads_defect(self.applied_loads@, self.length@, index, 0);
    }

    proof fn lemma_loads_defect(loads: Seq<AppliedLoad>, length: Num, span: usize, from: int)
        requires
            0 <= from <= loads.len(),
        ensures
            loads_defect(loads, length, span, from) is None <==> forall|l: int|
                from <= l < loads.len() ==> (#[trigger] loads[l]).fits(length),
        decreases loads.len() - from,
    {
        if from < loads.len() {
            Self::lemma_loads_defect(loads, length, span, from + 1);
            if loads_defect(loads, length, span, from) is None {
                assert(loads[from].fits(length));
                assert forall|l: int| from <= l < loads.len() implies (#[trigger] loads[l]).fits(
                    length,
                ) by {
                    if l > from {
                    }
                }
            } else if loads[from].defect_on(length, span, from as usize) is Some {
                assert(!loads[from].fits(length));
            }
        }
    }

    /// A span whose rigidity is worked out from its modulus and its moment
    /// of inertia. The `i` end is held as `at_i` says, the `j` end as
    /// `at_j` says.
    pub fn new(
        span_type: SpanType,
        length: Fixed,
        e_value: Fixed,
        i_value: Fixed,
        at_i: SupportCondition,
        at_j: SupportCondition,
        applied_loads: Vec<AppliedLoad>,
    ) -> (r: Span)
        ensures
            r.span_type == span_type,
            r.length == length,
            r.e_value == e_value,
            r.i_value == i_value,
            r.ei_value@ == fx_mul(e_value@, i_value@),
            r.support_conditions@ == seq![at_i, at_j],
            r.applied_loads == applied_loads,
    {
        let mut support_conditions: Vec<SupportCondition> = Vec::new();
        support_conditions.push(at_i);
        support_conditions.push(at_j);
        assert(support_conditions@ =~= seq![at_i, at_j]);
        Span {
            span_type,
            length,
            e_value,
            i_value,
            ei_value: e_value.mul(i_value),
            support_conditions,
            applied_loads,
        }
    }

    fn check(&self, index: usize) -> (r: Option<ModelDefect>)
        ensures
            r == self.defect(index),
    {
        let zero = Fixed::zero();
        if !zero.lt(self.length) {
            return Some(ModelDefect::SpanLength { span: index });
        }
        if !zero.lt(self.e_value) {
            return Some(ModelDefect::SpanModulus { span: index });
        }
        if !zero.lt(self.i_value) {
            return Some(ModelDefect::SpanInertia { span: index });
        }
        let product = self.e_value.mul(self.i_value);
        if !(zero.lt(self.ei_value) && product.le(self.ei_value) && self.ei_value.le(product)) {
            return Some(ModelDefect::SpanRigidity { span: index });
        }
        if self.support_conditions.len() != 2 {
            return Some(ModelDefect::SpanSupports { span: index });
        }
        let mut l: usize = 0;
        while l < self.applied_loads.len()
            invariant
                l <= self.applied_loads@.len(),
                self.defect(index) == loads_defect(self.applied_loads@, self.length@, index, 0),
                loads_defect(self.applied_loads@, self.length@, index, 0) == loads_defect(
                    self.applied_loads@,
                    self.length@,
                    index,
                    l as int,
                ),
            decreases self.applied_loads@.len() - l,
        {
            let found = self.applied_loads[l].check_on(self.length, index, l);
            if found.is_some() {
                return found;
            }
            l += 1;
        }
        None
    }
}

/// The first defect among the spans `from..`.
pub open spec fn spans_defect(spans: Seq<Span>, from: int) -> Option<ModelDefect>
    decreases spans.len() - from,
{
    if from < 0 || from >= spans.len() {
        None
    } else {
        match spans[from].defect(from as usize) {
            Some(d) => Some(d),
            None => spans_defect(spans, from + 1),
        }
    }
}

/// The first defect among the joints `from..`.
pub open spec fn nodes_defect(nodes: Seq<Node>, from: int) -> Option<ModelDefect>
    decreases nodes.len() - from,
{
    if from < 0 || from >= nodes.len() {
        None
    } else if !nodes[from].well_formed() {
        Some(ModelDefect::NodeLoad { node: from as usize })
    } else {
        nodes_defect(nodes, from + 1)
    }
}

/// The first defect among the beam's own loads `from..`.
pub open spec fn beam_loads_defect(loads: Seq<AppliedLoad>, from: int) -> Option<ModelDefect>
    decreases loads.len() - from,
{
    if from < 0 || from >= loads.len() {
        None
    } else if !loads[from].well_formed() {
        Some(ModelDefect::BeamLoad { load: from as usize })
    } else {
        beam_loads_defect(loads, from + 1)
    }
}

impl Beam {
    /// The invariant of a beam model.
    pub open spec fn valid(&self) -> bool {
        &&& self.nodes@.len() == self.spans@.len() + 1
        &&& forall|s: int| 0 <= s < self.spans@.len() ==> (#[trigger] self.spans@[s]).valid()
        &&& forall|j: int| 0 <= j < self.nodes@.len() ==> (#[trigger] self.nodes@[j]).well_formed()
        &&& forall|l: int| 0 <= l < self.loads@.len() ==> (#[trigger] self.loads@[l]).well_formed()
    }

    /// The first thing wrong with the model, if anything is: the count of
    /// joints, then the spans from the left, each with its loads in order,
    /// then the joints, then the beam's own loads.
    pub open spec fn first_defect(&self) -> Option<ModelDefect> {
        if self.nodes@.len() != self.spans@.len() + 1 {
            Some(ModelDefect::NodeCount { spans: self.spans.len(), nodes: self.nodes.len() })
        } else {
            match spans_defect(self.spans@, 0) {
                Some(d) => Some(d),
                None => match nodes_defect(self.nodes@, 0) {
                    Some(d) => Some(d),
                    None => beam_loads_defect(self.loads@, 0),
                },
            }
        }
    }

    proof fn lemma_spans_defect(spans: Seq<Span>, from: int)
        requires
            0 <= from <= spans.len(),
        ensures
            spans_defect(spans, from) is None <==> forall|s: int|
                from <= s < spans.len() ==> (#[trigger] spans[s]).valid(),
        decreases spans.len() - from,
    {
        if from < spans.len() {
            Self::lemma_spans_defect(spans, from + 1);
            spans[from].lemma_defect_none_iff_valid(from as usize);
            if spans_defect(spans, from) is None {
                assert forall|s: int| from <= s < spans.len() implies (#[trigger] spans[s]).valid() by {
                    if s > from {
                    }
                }
            } else if spans[from].defect(from as usize) is Some {
                assert(!spans[from].valid());
            }
        }
    }

    proof fn lemma_nodes_defect(nodes: Seq<Node>, from: int)
        requires
            0 <= from <= nodes.len(),
        ensures
            nodes_defect(nodes, from) is None <==> forall|j: int|
                from <= j < nodes.len() ==> (#[trigger] nodes[j]).well_formed(),
        decreases nodes.len() - from,
    {
        if from < nodes.len() {
            Self::lemma_nodes_defect(nodes, from + 1);
            if nodes_defect(nodes, from) is None {
                assert forall|j: int| from <= j < nodes.len() implies (
                #[trigger] nodes[j]).well_formed() by {
                    if j > from {
                    }
                }
            } else if !nodes[from].well_formed() {
            }
        }
    }

    proof fn lemma_beam_loads_defect(loads: Seq<AppliedLoad>, from: int)
        requires
            0 <= from <= loads.len(),
        ensures
            beam_loads_defect(loads, from) is None <==> forall|l: int|
                from <= l < loads.len() ==> (#[trigger] loads[l]).well_formed(),
        decreases loads.len() - from,
    {
        if from < loads.len() {
            Self::lemma_beam_loads_defect(loads, from + 1);
            if beam_loads_defect(loads, from) is None {
                assert forall|l: int| from <= l < loads.len() implies (
                #[trigger] loads[l]).well_formed() by {
                    if l > from {
                    }
                }
            } else if !loads[from].well_formed() {
            }
        }
    }

    /// A model has no defect exactly when it is valid.
    pub proof fn lemma_first_defect_none_iff_valid(&self)
        ensures
            self.first_defect() is None <==> self.valid(),
    {
        Self::lemma_spans_defect(self.spans@, 0);
        Self::lemma_nodes_defect(self.nodes@, 0);
        Self::lemma_beam_loads_defect(self.loads@, 0);
    }

    /// The first defect of the model, in the order of `first_defect`.
    fn find_defect(&self) -> (r: Option<ModelDefect>)
        ensures
            r == self.first_defect(),
    {
        let n = self.spans.len();
        if n == usize::MAX || self.nodes.len() != n + 1 {
            return Some(ModelDefect::NodeCount { spans: n, nodes: self.nodes.len() });
        }
        let mut s: usize = 0;
        while s < n
            invariant
                n == self.spans@.len(),
                self.nodes@.len() == n + 1,
                s <= n,
                spans_defect(self.spans@, 0) == spans_defect(self.spans@, s as int),
            decreases n - s,
        {
            let found = self.spans[s].check(s);
            if found.is_some() {
                return found;
            }
            s += 1;
        }
        let mut j: usize = 0;
        while j < self.nodes.len()
            invariant
                self.nodes@.len() == self.spans@.len() + 1,
                spans_defect(self.spans@, 0) is None,
                j <= self.nodes@.len(),
                nodes_defect(self.nodes@, 0) == nodes_defect(self.nodes@, j as int),
            decreases self.nodes@.len() - j,
        {
            if !self.nodes[j].check_well_formed() {
                return Some(ModelDefect::NodeLoad { node: j });
            }
            j += 1;
        }
        let mut l: usize = 0;
        while l < self.loads.len()
            invariant
                self.nodes@.len() == self.spans@.len() + 1,
                spans_defect(self.spans@, 0) is None,
                nodes_defect(self.nodes@, 0) is None,
                l <= self.loads@.len(),
                beam_loads_defect(self.loads@, 0) == beam_loads_defect(self.loads@, l as int),
            decreases self.loads@.len() - l,
        {
            if !self.loads[l].check_well_formed() {
                return Some(ModelDefect::BeamLoad { load: l });
            }
            l += 1;
        }
        None
    }

    /// Checks the model's invariant and names the first defect.
    pub fn validate(&self) -> (r: Result<(), ModelDefect>)
        ensures
            r is Ok <==> self.valid(),
            r matches Err(d) ==> self.first_defect() == Some(d),
    {
        proof {
            self.lemma_first_defect_none_iff_valid();
        }
        match self.find_defect() {
            Some(d) => Err(d),
            None => Ok(()),
        }
    }
}

} // verus!
