//! Signed decimal fixed-point numbers with nine fractional digits.
//!
//! Every quantity of the analysis (lengths, loads, moments, stiffnesses,
//! deflections) is a `Fixed`. A `Fixed` either holds a count of
//! billionths, or it is *unrepresentable*: the result of an operation whose
//! exact value left the range, or of a division by zero. Unrepresentable
//! operands make unrepresentable results, so a whole formula can be written
//! down plainly and tested once at its end.
//!
//! The mathematical model of a `Fixed` is `Option<int>`: `Some(n)` stands for
//! the number `n / SCALE`, `None` for an unrepresentable one. The `fx_*`
//! functions state each operation on that model; products and quotients
//! round towards zero.
use vstd::prelude::*;

verus! {

/// Number of raw units in one whole unit.
pub const SCALE: i128 = 1_000_000_000;

/// Largest magnitude, in raw units, that a `Fixed` represents.
pub const LIMIT: i128 = 170_141_183_460_469_231_731_687_303_715_884_105_727;

/// The mathematical model of a fixed-point number.
pub type Num = Option<int>;

/// `a / b` rounded towards zero (`b` is not zero).
pub open spec fn trunc_div(a: int, b: int) -> int {
    if a == 0 {
        0
    } else if a > 0 && b > 0 {
        a / b
    } else if a < 0 && b < 0 {
        (-a) / (-b)
    } else if a < 0 {
        -((-a) / b)
    } else {
        -(a / (-b))
    }
}

/// Whether a raw value is representable.
pub open spec fn in_range(x: int) -> bool {
    -LIMIT <= x <= LIMIT
}

/// The raw value `x` if it is representable.
pub open spec fn bounded(x: int) -> Num {
    if in_range(x) {
        Some(x)
    } else {
        None
    }
}

/// Whether a model is one that a number can have.
pub open spec fn num_bounded(a: Num) -> bool {
    a matches Some(x) ==> in_range(x)
}

/// The model of zero.
pub open spec fn fx_zero() -> Num {
    Some(0int)
}

/// The model of one.
pub open spec fn fx_one() -> Num {
    Some(SCALE as int)
}

/// The model of the whole number `n`.
pub open spec fn fx_int(n: int) -> Num {
    bounded(n * SCALE)
}

/// The model of `num / den`, rounded towards zero.
pub open spec fn fx_ratio(num: int, den: int) -> Num {
    if den != 0 && in_range(num * SCALE) {
        bounded(trunc_div(num * SCALE, den))
    } else {
        None
    }
}

/// Sum of two numbers.
pub open spec fn fx_add(a: Num, b: Num) -> Num {
    match (a, b) {
        (Some(x), Some(y)) => bounded(x + y),
        _ => None,
    }
}

/// Difference of two numbers.
pub open spec fn fx_sub(a: Num, b: Num) -> Num {
    match (a, b) {
        (Some(x), Some(y)) => bounded(x - y),
        _ => None,
    }
}

/// A number with its sign turned.
pub open spec fn fx_neg(a: Num) -> Num {
    match a {
        Some(x) => bounded(-x),
        None => None,
    }
}

/// The size of a number.
pub open spec fn fx_abs(a: Num) -> Num {
    match a {
        Some(x) => bounded(if x < 0 { -x } else { x }),
        None => None,
    }
}

/// Product of two numbers. The exact product of the raw values has to be
/// representable; it is then brought back to scale, rounding towards zero.
pub open spec fn fx_mul(a: Num, b: Num) -> Num {
    match (a, b) {
        (Some(x), Some(y)) => if in_range(x * y) {
            bounded(trunc_div(x * y, SCALE as int))
        } else {
            None
        },
        _ => None,
    }
}

/// Quotient of two numbers, rounded towards zero. The dividend is first
/// brought to double scale, which has to be representable; a zero divisor
/// gives an unrepresentable result.
pub open spec fn fx_div(a: Num, b: Num) -> Num {
    match (a, b) {
        (Some(x), Some(y)) => if y != 0 && in_range(x * SCALE) {
            bounded(trunc_div(x * SCALE, y))
        } else {
            None
        },
        _ => None,
    }
}

/// A number times the integer `k`.
pub open spec fn fx_scale(a: Num, k: int) -> Num {
    match a {
        Some(x) => bounded(x * k),
        None => None,
    }
}

/// A number divided by the integer `k`, rounded towards zero.
pub open spec fn fx_quot(a: Num, k: int) -> Num {
    match a {
        Some(x) => if k != 0 {
            bounded(trunc_div(x, k))
        } else {
            None
        },
        None => None,
    }
}

/// `a < b`, which holds of representable numbers only.
pub open spec fn fx_lt(a: Num, b: Num) -> bool {
    match (a, b) {
        (Some(x), Some(y)) => x < y,
        _ => false,
    }
}

/// `a <= b`, which holds of representable numbers only.
pub open spec fn fx_le(a: Num, b: Num) -> bool {
    match (a, b) {
        (Some(x), Some(y)) => x <= y,
        _ => false,
    }
}

/// `a == b`, which holds of representable numbers only.
pub open spec fn fx_eq(a: Num, b: Num) -> bool {
    match (a, b) {
        (Some(x), Some(y)) => x == y,
        _ => false,
    }
}

/// The larger of two numbers.
pub open spec fn fx_max(a: Num, b: Num) -> Num {
    match (a, b) {
        (Some(x), Some(y)) => Some(if x < y { y } else { x }),
        _ => None,
    }
}

/// The smaller of two numbers.
pub open spec fn fx_min(a: Num, b: Num) -> Num {
    match (a, b) {
        (Some(x), Some(y)) => Some(if y < x { y } else { x }),
        _ => None,
    }
}

/// The size of an integer.
pub open spec fn size(x: int) -> int {
    if x < 0 {
        -x
    } else {
        x
    }
}

/// Rounding towards zero: the quotient times the divisor does not pass the
/// dividend, and falls short of it by less than the divisor.
pub proof fn lemma_trunc_div_rounds_towards_zero(a: int, b: int)
    requires
        b != 0,
    ensures
        size(a - trunc_div(a, b) * b) < size(b),
        a >= 0 ==> a - trunc_div(a, b) * b >= 0,
        a <= 0 ==> a - trunc_div(a, b) * b <= 0,
        size(trunc_div(a, b)) <= size(a),
{
    let x = size(a);
    let y = size(b);
    let q = x / y;
    assert(0 <= x - q * y < y && 0 <= q <= x) by (nonlinear_arith)
        requires
            x >= 0,
            y > 0,
            q == x / y,
    ;
    if a == 0 {
        assert(0 * b == 0);
    } else if a > 0 && b > 0 {
    } else if a < 0 && b < 0 {
        assert(q * b == -(q * y)) by (nonlinear_arith)
            requires
                b == -y,
        ;
    } else if a < 0 {
        assert((-q) * b == -(q * y)) by (nonlinear_arith)
            requires
                b == y,
        ;
    } else {
        assert((-q) * b == q * y) by (nonlinear_arith)
            requires
                b == -y,
        ;
    }
}

/// A product is the exact product of the two numbers, cut off after the
/// ninth fractional digit.
pub proof fn lemma_product_is_cut_off(x: int, y: int)
    requires
        in_range(x * y),
    ensures
        fx_mul(Some(x), Some(y)) matches Some(p) && {
            &&& size(x * y - p * SCALE) < SCALE
            &&& x * y >= 0 ==> p * SCALE <= x * y
            &&& x * y <= 0 ==> p * SCALE >= x * y
        },
{
    lemma_trunc_div_rounds_towards_zero(x * y, SCALE as int);
}

/// A quotient is the exact quotient of the two numbers, cut off after the
/// ninth fractional digit.
pub proof fn lemma_quotient_is_cut_off(x: int, y: int)
    requires
        y != 0,
        in_range(x * SCALE),
    ensures
        fx_div(Some(x), Some(y)) matches Some(q) && {
            &&& size(x * SCALE - q * y) < size(y)
            &&& x >= 0 ==> x * SCALE - q * y >= 0
            &&& x <= 0 ==> x * SCALE - q * y <= 0
        },
{
    lemma_trunc_div_rounds_towards_zero(x * SCALE, y);
    assert(x >= 0 ==> x * SCALE >= 0) by (nonlinear_arith)
        requires
            SCALE == 1_000_000_000,
    ;
    assert(x <= 0 ==> x * SCALE <= 0) by (nonlinear_arith)
        requires
            SCALE == 1_000_000_000,
    ;
}

/// A fixed-point number: a count of billionths, or unrepresentable.
#[derive(Clone, Copy, Debug)]
pub struct Fixed {
    raw: Option<i128>,
}

impl View for Fixed {
    type V = Option<int>;

    closed spec fn view(&self) -> Option<int> {
        match self.raw {
            Some(x) => bounded(x as int),
            None => None,
        }
    }
}

impl Fixed {
    /// The model of a number is representable.
    pub proof fn lemma_view_bounded(self)
        ensures
            num_bounded(self@),
    {
    }

    /// The count of billionths, read so that it agrees with the model.
    fn get(&self) -> (r: Option<i128>)
        ensures
            match r {
                Some(x) => self@ == Some(x as int) && in_range(x as int),
                None => self@ is None,
            },
    {
        match self.raw {
            Some(x) => if x < -LIMIT {
                None
            } else {
                Some(x)
            },
            None => None,
        }
    }

    /// The unrepresentable number.
    pub fn unrepresentable() -> (r: Fixed)
        ensures
            r@ is None,
    {
        Fixed { raw: None }
    }

    /// Zero.
    pub fn zero() -> (r: Fixed)
        ensures
            r@ == fx_zero(),
    {
        Fixed { raw: Some(0) }
    }

    /// One.
    pub fn one() -> (r: Fixed)
        ensures
            r@ == fx_one(),
    {
        Fixed { raw: Some(SCALE) }
    }

    /// The number of `raw` billionths.
    pub fn from_raw(raw: i128) -> (r: Fixed)
        ensures
            r@ == bounded(raw as int),
    {
        if raw < -LIMIT {
            Fixed { raw: None }
        } else {
            Fixed { raw: Some(raw) }
        }
    }

    /// The whole number `n`.
    pub fn from_int(n: i64) -> (r: Fixed)
        ensures
            r@ == fx_int(n as int),
            r@ is Some,
    {
        assert(-LIMIT <= n * SCALE <= LIMIT) by (nonlinear_arith)
            requires
                -0x8000_0000_0000_0000 <= n <= 0x7fff_ffff_ffff_ffff,
                SCALE == 1_000_000_000,
                LIMIT == 170_141_183_460_469_231_731_687_303_715_884_105_727,
        ;
        let wide: i128 = n as i128;
        Fixed { raw: Some(wide * SCALE) }
    }

    /// The ratio `num / den`, rounded towards zero; unrepresentable if `den`
    /// is zero.
    pub fn from_ratio(num: i64, den: i64) -> (r: Fixed)
        ensures
            r@ == fx_ratio(num as int, den as int),
    {
        if den == 0 {
            return Fixed { raw: None };
        }
        assert(-LIMIT <= num * SCALE <= LIMIT) by (nonlinear_arith)
            requires
                -0x8000_0000_0000_0000 <= num <= 0x7fff_ffff_ffff_ffff,
                SCALE == 1_000_000_000,
                LIMIT == 170_141_183_460_469_231_731_687_303_715_884_105_727,
        ;
        let wide: i128 = num as i128;
        let scaled: i128 = wide * SCALE;
        let divisor: i128 = den as i128;
        Fixed::checked(scaled.checked_div(divisor))
    }

    /// Wraps the outcome of a checked machine operation.
    fn checked(v: Option<i128>) -> (r: Fixed)
        ensures
            r@ == (match v {
                Some(x) => bounded(x as int),
                None => None,
            }),
    {
        match v {
            Some(x) => Fixed::from_raw(x),
            None => Fixed { raw: None },
        }
    }

    /// Whether the number is representable.
    pub fn is_finite(&self) -> (b: bool)
        ensures
            b == (self@ is Some),
    {
        self.get().is_some()
    }

    /// The count of billionths, if the number is representable.
    pub fn to_raw(&self) -> (r: Option<i128>)
        ensures
            match r {
                Some(x) => self@ == Some(x as int),
                None => self@ is None,
            },
    {
        self.get()
    }

    /// Sum of two numbers.
    pub fn add(self, rhs: Fixed) -> (r: Fixed)
        ensures
            r@ == fx_add(self@, rhs@),
    {
        match (self.get(), rhs.get()) {
            (Some(x), Some(y)) => Fixed::checked(x.checked_add(y)),
            _ => Fixed { raw: None },
        }
    }

    /// Difference of two numbers.
    pub fn sub(self, rhs: Fixed) -> (r: Fixed)
        ensures
            r@ == fx_sub(self@, rhs@),
    {
        match (self.get(), rhs.get()) {
            (Some(x), Some(y)) => Fixed::checked(x.checked_sub(y)),
            _ => Fixed { raw: None },
        }
    }

    /// The number with its sign turned.
    pub fn neg(self) -> (r: Fixed)
        ensures
            r@ == fx_neg(self@),
    {
        match self.get() {
            Some(x) => {
                let zero: i128 = 0;
                Fixed::checked(zero.checked_sub(x))
            },
            None => Fixed { raw: None },
        }
    }

    /// The size of the number.
    pub fn abs(self) -> (r: Fixed)
        ensures
            r@ == fx_abs(self@),
    {
        match self.get() {
            Some(x) => if x < 0 {
                let zero: i128 = 0;
                Fixed::checked(zero.checked_sub(x))
            } else {
                Fixed::from_raw(x)
            },
            None => Fixed { raw: None },
        }
    }

    /// Product of two numbers, rounded towards zero.
    pub fn mul(self, rhs: Fixed) -> (r: Fixed)
        ensures
            r@ == fx_mul(self@, rhs@),
    {
        match (self.get(), rhs.get()) {
            (Some(x), Some(y)) => match x.checked_mul(y) {
                Some(p) => if p < -LIMIT {
                    Fixed { raw: None }
                } else {
                    Fixed { raw: Some(p / SCALE) }
                },
                None => Fixed { raw: None },
            },
            _ => Fixed { raw: None },
        }
    }

    /// Quotient of two numbers, rounded towards zero; unrepresentable if the
    /// divisor is zero.
    pub fn div(self, rhs: Fixed) -> (r: Fixed)
        ensures
            r@ == fx_div(self@, rhs@),
    {
        match (self.get(), rhs.get()) {
            (Some(x), Some(y)) => match x.checked_mul(SCALE) {
                Some(p) => if p < -LIMIT {
                    Fixed { raw: None }
                } else {
                    Fixed::checked(p.checked_div(y))
                },
                None => Fixed { raw: None },
            },
            _ => Fixed { raw: None },
        }
    }

    /// The number times the integer `k`.
    pub fn scale(self, k: i64) -> (r: Fixed)
        ensures
            r@ == fx_scale(self@, k as int),
    {
        match self.get() {
            Some(x) => {
                let wide: i128 = k as i128;
                Fixed::checked(x.checked_mul(wide))
            },
            None => Fixed { raw: None },
        }
    }

    /// The number divided by the integer `k`, rounded towards zero.
    pub fn quot(self, k: i64) -> (r: Fixed)
        ensures
            r@ == fx_quot(self@, k as int),
    {
        match self.get() {
            Some(x) => {
                let wide: i128 = k as i128;
                Fixed::checked(x.checked_div(wide))
            },
            None => Fixed { raw: None },
        }
    }

    /// Whether both are numbers and the first is the smaller.
    pub fn lt(self, rhs: Fixed) -> (b: bool)
        ensures
            b == fx_lt(self@, rhs@),
    {
        match (self.get(), rhs.get()) {
            (Some(x), Some(y)) => x < y,
            _ => false,
        }
    }

    /// Whether both are numbers and the first is not the larger.
    pub fn le(self, rhs: Fixed) -> (b: bool)
        ensures
            b == fx_le(self@, rhs@),
    {
        match (self.get(), rhs.get()) {
            (Some(x), Some(y)) => x <= y,
            _ => false,
        }
    }

    /// Whether both are numbers and the same.
    pub fn equals(self, rhs: Fixed) -> (b: bool)
        ensures
            b == fx_eq(self@, rhs@),
    {
        match (self.get(), rhs.get()) {
            (Some(x), Some(y)) => x == y,
            _ => false,
        }
    }

    /// The smaller of two numbers.
    pub fn min(self, rhs: Fixed) -> (r: Fixed)
        ensures
            r@ == fx_min(self@, rhs@),
    {
        match (self.get(), rhs.get()) {
            (Some(x), Some(y)) => if y < x {
                rhs
            } else {
                self
            },
            _ => Fixed { raw: None },
        }
    }

    /// The larger of two numbers.
    pub fn max(self, rhs: Fixed) -> (r: Fixed)
        ensures
            r@ == fx_max(self@, rhs@),
    {
        match (self.get(), rhs.get()) {
            (Some(x), Some(y)) => if x < y {
                rhs
            } else {
                self
            },
            _ => Fixed { raw: None },
        }
    }
}

} // verus!
