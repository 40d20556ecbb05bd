use vstd::prelude::*;

verus! {

/// Largest number of digits after the decimal point that an amount can carry.
pub const MAX_SCALE: u32 = 28;

/// Exclusive bound on the magnitude of a mantissa: 2^96.
pub const MANTISSA_LIMIT: i128 = 0x1_0000_0000_0000_0000_0000_0000;

/// Ten to the power `n`.
pub open spec fn pow10(n: nat) -> int
    decreases n,
{
    if n == 0 {
        1
    } else {
        10 * pow10((n - 1) as nat)
    }
}

/// The number `mantissa / 10^scale`, counted in units of `10^-28`.
pub open spec fn units(mantissa: int, scale: int) -> int {
    mantissa * pow10((MAX_SCALE - scale) as nat)
}

/// Whether `mantissa` and `scale` describe a decimal of 96 bits and at most 28 places.
pub open spec fn representable(mantissa: int, scale: int) -> bool {
    -MANTISSA_LIMIT < mantissa < MANTISSA_LIMIT && 0 <= scale <= MAX_SCALE
}

/// A power of ten is at least one.
pub proof fn lemma_pow10_positive(n: nat)
    ensures
        pow10(n) >= 1,
    decreases n,
{
    if n > 0 {
        lemma_pow10_positive((n - 1) as nat);
    }
}

/// Powers of ten grow with the exponent.
pub proof fn lemma_pow10_monotonic(a: nat, b: nat)
    requires
        a <= b,
    ensures
        pow10(a) <= pow10(b),
    decreases b,
{
    if a < b {
        lemma_pow10_monotonic(a, (b - 1) as nat);
        lemma_pow10_positive((b - 1) as nat);
    }
}

/// Powers of ten multiply as their exponents add.
pub proof fn lemma_pow10_add(a: nat, b: nat)
    ensures
        pow10(a + b) == pow10(a) * pow10(b),
    decreases a,
{
    if a > 0 {
        lemma_pow10_add((a - 1) as nat, b);
        let x = pow10((a - 1) as nat);
        let y = pow10(b);
        assert(pow10(a + b) == 10 * pow10(((a - 1) as nat) + b));
        assert(10 * (x * y) == (10 * x) * y) by (nonlinear_arith);
    }
}

/// The largest power of ten that an amount is scaled by.
pub proof fn lemma_pow10_28()
    ensures
        pow10(28) == 10_000_000_000_000_000_000_000_000_000int,
{
    reveal_with_fuel(pow10, 29);
}

/// An exact decimal number: `mantissa / 10^scale`, with a mantissa of at most 96 bits
/// and a scale of at most 28.
#[derive(Clone, Copy, Debug)]
pub struct Amount {
    mantissa: i128,
    scale: u32,
}

impl View for Amount {
    type V = int;

    /// The amount in units of `10^-28`: two amounts denote the same number exactly
    /// when their views are equal.
    open spec fn view(&self) -> int {
        units(self.spec_mantissa() as int, self.spec_scale() as int)
    }
}

impl Amount {
    /// The digits of the amount, as a whole number with its sign.
    pub closed spec fn spec_mantissa(&self) -> i128 {
        self.mantissa
    }

    /// How many of the digits stand behind the decimal point.
    pub closed spec fn spec_scale(&self) -> u32 {
        self.scale
    }

    /// The amount with the given mantissa and scale.
    pub closed spec fn from_parts(mantissa: int, scale: int) -> Amount {
        Amount { mantissa: mantissa as i128, scale: scale as u32 }
    }

    /// The mantissa has at most 96 bits and the scale is at most 28.
    pub open spec fn wf(&self) -> bool {
        representable(self.spec_mantissa() as int, self.spec_scale() as int)
    }

    /// Every amount that exists at run time is well formed.
    #[verifier::type_invariant]
    pub open spec fn inv(&self) -> bool {
        self.wf()
    }

    /// An amount made of parts that are representable has those parts.
    pub proof fn lemma_from_parts(mantissa: int, scale: int)
        requires
            representable(mantissa, scale),
        ensures
            Amount::from_parts(mantissa, scale).spec_mantissa() == mantissa,
            Amount::from_parts(mantissa, scale).spec_scale() == scale,
            Amount::from_parts(mantissa, scale).wf(),
    {
    }

    /// The amount `mantissa / 10^scale`, where that is representable.
    pub fn new(mantissa: i128, scale: u32) -> (r: Option<Amount>)
        ensures
            r is Some <==> representable(mantissa as int, scale as int),
            r matches Some(a) ==> a == Amount::from_parts(mantissa as int, scale as int) && a.wf(),
    {
        if -MANTISSA_LIMIT < mantissa && mantissa < MANTISSA_LIMIT && scale <= MAX_SCALE {
            Some(Amount { mantissa, scale })
        } else {
            None
        }
    }

    /// The amount zero, without places.
    pub fn zero() -> (r: Amount)
        ensures
            r == Amount::from_parts(0, 0),
            r@ == 0,
            r.wf(),
    {
        Amount { mantissa: 0, scale: 0 }
    }

    /// The digits of the amount, as a whole number with its sign.
    #[verifier::when_used_as_spec(spec_mantissa)]
    pub fn mantissa(&self) -> (r: i128)
        ensures
            r == self.spec_mantissa(),
            self.wf(),
    {
        proof {
            use_type_invariant(self);
        }
        self.mantissa
    }

    /// How many of the digits stand behind the decimal point.
    #[verifier::when_used_as_spec(spec_scale)]
    pub fn scale(&self) -> (r: u32)
        ensures
            r == self.spec_scale(),
            self.wf(),
    {
        proof {
            use_type_invariant(self);
        }
        self.scale
    }
}

/// The larger of two scales.
pub open spec fn wider(a: int, b: int) -> int {
    if a >= b {
        a
    } else {
        b
    }
}

/// The mantissa of `a` once it is written with `scale` places, `scale` being at
/// least the scale of `a`.
pub open spec fn aligned(a: Amount, scale: int) -> int {
    a.spec_mantissa() * pow10((scale - a.spec_scale()) as nat)
}

/// Both amounts, written with the larger of their scales, and their sum fit in 96 bits.
pub open spec fn sum_fits(a: Amount, b: Amount) -> bool {
    let scale = wider(a.spec_scale() as int, b.spec_scale() as int);
    &&& -MANTISSA_LIMIT < aligned(a, scale) < MANTISSA_LIMIT
    &&& -MANTISSA_LIMIT < aligned(b, scale) < MANTISSA_LIMIT
    &&& -MANTISSA_LIMIT < aligned(a, scale) + aligned(b, scale) < MANTISSA_LIMIT
}

/// Both amounts, written with the larger of their scales, and their difference fit
/// in 96 bits.
pub open spec fn difference_fits(a: Amount, b: Amount) -> bool {
    let scale = wider(a.spec_scale() as int, b.spec_scale() as int);
    &&& -MANTISSA_LIMIT < aligned(a, scale) < MANTISSA_LIMIT
    &&& -MANTISSA_LIMIT < aligned(b, scale) < MANTISSA_LIMIT
    &&& -MANTISSA_LIMIT < aligned(a, scale) - aligned(b, scale) < MANTISSA_LIMIT
}

/// The product of the mantissas fits in 96 bits and the scales add up to at most 28.
pub open spec fn product_fits(a: Amount, b: Amount) -> bool {
    &&& -MANTISSA_LIMIT < a.spec_mantissa() * b.spec_mantissa() < MANTISSA_LIMIT
    &&& a.spec_scale() + b.spec_scale() <= MAX_SCALE
}

/// The sum as it is written where nothing is rounded: an operand that is zero
/// leaves the other as it is; otherwise both are brought to the larger of the two
/// scales and the mantissas added.
pub open spec fn added(a: Amount, b: Amount) -> Amount {
    let scale = wider(a.spec_scale() as int, b.spec_scale() as int);
    if a.spec_mantissa() == 0 {
        b
    } else if b.spec_mantissa() == 0 {
        a
    } else {
        Amount::from_parts(aligned(a, scale) + aligned(b, scale), scale)
    }
}

/// The difference as it is written where nothing is rounded: from zero the other
/// operand is taken with its sign turned, zero taken leaves the first as it is;
/// otherwise both are brought to the larger of the two scales and the mantissas
/// subtracted.
pub open spec fn subtracted(a: Amount, b: Amount) -> Amount {
    let scale = wider(a.spec_scale() as int, b.spec_scale() as int);
    if a.spec_mantissa() == 0 {
        Amount::from_parts(-b.spec_mantissa(), b.spec_scale() as int)
    } else if b.spec_mantissa() == 0 {
        a
    } else {
        Amount::from_parts(aligned(a, scale) - aligned(b, scale), scale)
    }
}

/// The product as it is written where nothing is rounded: zero without places where
/// an operand is zero; otherwise the mantissas multiplied and the scales added.
pub open spec fn multiplied(a: Amount, b: Amount) -> Amount {
    if a.spec_mantissa() == 0 || b.spec_mantissa() == 0 {
        Amount::from_parts(0, 0)
    } else {
        Amount::from_parts(
            a.spec_mantissa() * b.spec_mantissa(),
            a.spec_scale() + b.spec_scale(),
        )
    }
}

/// Calls `rust_decimal::Decimal::checked_add` on the two decimals. Where both
/// operands, brought to the larger of the two scales, and their sum stay below 2^96
/// in magnitude, nothing is rounded and the result is written as [`added`] says.
/// Of other operands nothing is said.
#[verifier::external_body]
fn decimal_checked_add(a: Amount, b: Amount) -> (r: Option<Amount>)
    ensures
        sum_fits(a, b) ==> r == Some(added(a, b)),
{
    let x = rust_decimal::Decimal::from_i128_with_scale(a.mantissa, a.scale);
    let y = rust_decimal::Decimal::from_i128_with_scale(b.mantissa, b.scale);
    match x.checked_add(y) {
        Some(z) => Some(Amount { mantissa: z.mantissa(), scale: z.scale() }),
        None => None,
    }
}

/// Calls `rust_decimal::Decimal::checked_sub` on the two decimals. Where both
/// operands, brought to the larger of the two scales, and their difference stay
/// below 2^96 in magnitude, nothing is rounded and the result is written as
/// [`subtracted`] says. Of other operands nothing is said.
#[verifier::external_body]
fn decimal_checked_sub(a: Amount, b: Amount) -> (r: Option<Amount>)
    ensures
        difference_fits(a, b) ==> r == Some(subtracted(a, b)),
{
    let x = rust_decimal::Decimal::from_i128_with_scale(a.mantissa, a.scale);
    let y = rust_decimal::Decimal::from_i128_with_scale(b.mantissa, b.scale);
    match x.checked_sub(y) {
        Some(z) => Some(Amount { mantissa: z.mantissa(), scale: z.scale() }),
        None => None,
    }
}

/// Calls `rust_decimal::Decimal::checked_mul` on the two decimals. Where the
/// product of the mantissas stays below 2^96 in magnitude and the scales add up to
/// at most 28, nothing is rounded and the result is written as [`multiplied`]
/// says. Of other operands nothing is said.
#[verifier::external_body]
fn decimal_checked_mul(a: Amount, b: Amount) -> (r: Option<Amount>)
    ensures
        product_fits(a, b) ==> r == Some(multiplied(a, b)),
{
    let x = rust_decimal::Decimal::from_i128_with_scale(a.mantissa, a.scale);
    let y = rust_decimal::Decimal::from_i128_with_scale(b.mantissa, b.scale);
    match x.checked_mul(y) {
        Some(z) => Some(Amount { mantissa: z.mantissa(), scale: z.scale() }),
        None => None,
    }
}

/// Calls `<` of `rust_decimal::Decimal`, which orders decimals by the number they
/// denote, whatever their scales.
#[verifier::external_body]
fn decimal_less(a: Amount, b: Amount) -> (r: bool)
    ensures
        r == (a@ < b@),
{
    let x = rust_decimal::Decimal::from_i128_with_scale(a.mantissa, a.scale);
    let y = rust_decimal::Decimal::from_i128_with_scale(b.mantissa, b.scale);
    x < y
}

/// Ten to the power `n`, for the scales that an amount can have.
fn power_of_ten(n: u32) -> (r: i128)
    requires
        n <= MAX_SCALE,
    ensures
        r == pow10(n as nat),
        1 <= r <= 10_000_000_000_000_000_000_000_000_000,
{
    let mut r: i128 = 1;
    let mut i: u32 = 0;
    while i < n
        invariant
            i <= n <= MAX_SCALE,
            r == pow10(i as nat),
            r >= 1,
        decreases n - i,
    {
        proof {
            lemma_pow10_monotonic((i + 1) as nat, 28);
            lemma_pow10_28();
        }
        r = r * 10;
        i = i + 1;
    }
    proof {
        lemma_pow10_monotonic(n as nat, 28);
        lemma_pow10_28();
    }
    r
}

/// The mantissa of `a` written with `scale` places, where it still fits in 96 bits.
fn align(a: Amount, scale: u32) -> (r: Option<i128>)
    requires
        a.spec_scale() <= scale <= MAX_SCALE,
    ensures
        r is Some <==> -MANTISSA_LIMIT < aligned(a, scale as int) < MANTISSA_LIMIT,
        r matches Some(m) ==> m == aligned(a, scale as int),
{
    let factor: i128 = power_of_ten(scale - a.scale());
    match a.mantissa().checked_mul(factor) {
        Some(m) => {
            if -MANTISSA_LIMIT < m && m < MANTISSA_LIMIT {
                Some(m)
            } else {
                None
            }
        },
        None => None,
    }
}

impl Amount {
    /// The sum of two amounts, where it can be had without rounding.
    pub open spec fn sum(self, other: Amount) -> Option<Amount> {
        if self.wf() && other.wf() && sum_fits(self, other) {
            Some(added(self, other))
        } else {
            None
        }
    }

    /// The difference of two amounts, where it can be had without rounding.
    pub open spec fn difference(self, other: Amount) -> Option<Amount> {
        if self.wf() && other.wf() && difference_fits(self, other) {
            Some(subtracted(self, other))
        } else {
            None
        }
    }

    /// The product of two amounts, where it can be had without rounding.
    pub open spec fn product(self, other: Amount) -> Option<Amount> {
        if self.wf() && other.wf() && product_fits(self, other) {
            Some(multiplied(self, other))
        } else {
            None
        }
    }

    /// The amount taken `quantity` times, where it can be had without rounding.
    pub open spec fn multiple(self, quantity: int) -> Option<Amount> {
        self.product(Amount::from_parts(quantity, 0))
    }

    /// Writing an amount with more places does not change the number it denotes.
    pub proof fn lemma_aligned(self, scale: int)
        requires
            self.wf(),
            self.spec_scale() <= scale <= MAX_SCALE,
        ensures
            units(aligned(self, scale), scale) == self@,
    {
        let m = self.spec_mantissa() as int;
        let up = pow10((scale - self.spec_scale()) as nat);
        let rest = pow10((MAX_SCALE - scale) as nat);
        lemma_pow10_add((scale - self.spec_scale()) as nat, (MAX_SCALE - scale) as nat);
        assert(m * up * rest == m * (up * rest)) by (nonlinear_arith);
    }

    /// The amount zero denotes nothing, whatever its scale.
    pub proof fn lemma_zero(self)
        requires
            self.spec_mantissa() == 0,
        ensures
            self@ == 0,
    {
        let m = self.spec_mantissa() as int;
        let p = pow10((MAX_SCALE - self.spec_scale()) as nat);
        assert(m * p == 0) by (nonlinear_arith)
            requires
                m == 0,
        ;
    }

    /// Wherever a sum exists it is well formed and denotes the sum of the two numbers.
    pub proof fn lemma_sum(self, other: Amount)
        ensures
            self.sum(other) matches Some(c) ==> c.wf() && c@ == self@ + other@,
    {
        if let Some(c) = self.sum(other) {
            let scale = wider(self.spec_scale() as int, other.spec_scale() as int);
            let x = aligned(self, scale);
            let y = aligned(other, scale);
            let rest = pow10((MAX_SCALE - scale) as nat);
            if self.spec_mantissa() == 0 {
                self.lemma_zero();
            } else if other.spec_mantissa() == 0 {
                other.lemma_zero();
            } else {
                self.lemma_aligned(scale);
                other.lemma_aligned(scale);
                Amount::lemma_from_parts(x + y, scale);
                assert(c@ == (x + y) * rest);
                assert((x + y) * rest == x * rest + y * rest) by (nonlinear_arith);
            }
        }
    }

    /// Wherever a difference exists it is well formed and denotes the difference of
    /// the two numbers.
    pub proof fn lemma_difference(self, other: Amount)
        ensures
            self.difference(other) matches Some(c) ==> c.wf() && c@ == self@ - other@,
    {
        if let Some(c) = self.difference(other) {
            let scale = wider(self.spec_scale() as int, other.spec_scale() as int);
            let x = aligned(self, scale);
            let y = aligned(other, scale);
            let rest = pow10((MAX_SCALE - scale) as nat);
            if self.spec_mantissa() == 0 {
                let m = other.spec_mantissa() as int;
                let p = pow10((MAX_SCALE - other.spec_scale()) as nat);
                self.lemma_zero();
                Amount::lemma_from_parts(-m, other.spec_scale() as int);
                assert(c@ == (-m) * p);
                assert((-m) * p == -(m * p)) by (nonlinear_arith);
            } else if other.spec_mantissa() == 0 {
                other.lemma_zero();
            } else {
                self.lemma_aligned(scale);
                other.lemma_aligned(scale);
                Amount::lemma_from_parts(x - y, scale);
                assert(c@ == (x - y) * rest);
                assert((x - y) * rest == x * rest - y * rest) by (nonlinear_arith);
            }
        }
    }

    /// Amounts of one scale are brought to no other scale: they fit, add up and
    /// are ordered as their mantissas are.
    pub proof fn lemma_same_scale(self, other: Amount)
        requires
            self.wf(),
            other.wf(),
            self.spec_scale() == other.spec_scale(),
        ensures
            aligned(self, self.spec_scale() as int) == self.spec_mantissa(),
            aligned(other, self.spec_scale() as int) == other.spec_mantissa(),
            sum_fits(self, other) <==> -MANTISSA_LIMIT < self.spec_mantissa()
                + other.spec_mantissa() < MANTISSA_LIMIT,
            difference_fits(self, other) <==> -MANTISSA_LIMIT < self.spec_mantissa()
                - other.spec_mantissa() < MANTISSA_LIMIT,
            self@ < other@ <==> self.spec_mantissa() < other.spec_mantissa(),
            self@ == other@ <==> self.spec_mantissa() == other.spec_mantissa(),
    {
        let a = self.spec_mantissa() as int;
        let b = other.spec_mantissa() as int;
        let p = pow10((MAX_SCALE - self.spec_scale()) as nat);
        lemma_pow10_positive((MAX_SCALE - self.spec_scale()) as nat);
        assert(pow10(0) == 1);
        assert(a * 1 == a && b * 1 == b);
        assert(p >= 1 ==> ((a * p < b * p) <==> (a < b))) by (nonlinear_arith);
        assert(p >= 1 ==> ((a * p == b * p) <==> (a == b))) by (nonlinear_arith);
    }

    /// Wherever a product exists it is well formed and denotes the product of the
    /// mantissas at the sum of the scales.
    pub proof fn lemma_product(self, other: Amount)
        ensures
            self.product(other) matches Some(c) ==> c.wf() && c@ == units(
                self.spec_mantissa() * other.spec_mantissa(),
                self.spec_scale() + other.spec_scale(),
            ),
    {
        if let Some(c) = self.product(other) {
            let a = self.spec_mantissa() as int;
            let b = other.spec_mantissa() as int;
            let p = pow10((MAX_SCALE - (self.spec_scale() + other.spec_scale())) as nat);
            if a == 0 || b == 0 {
                Amount::lemma_from_parts(0, 0);
                assert(a * b == 0) by (nonlinear_arith)
                    requires
                        a == 0 || b == 0,
                ;
                assert(a * b * p == 0) by (nonlinear_arith)
                    requires
                        a * b == 0,
                ;
            } else {
                Amount::lemma_from_parts(a * b, self.spec_scale() + other.spec_scale());
            }
        }
    }

    /// Wherever a multiple exists it is well formed and denotes the number taken
    /// `quantity` times.
    pub proof fn lemma_multiple(self, quantity: int)
        requires
            representable(quantity, 0),
        ensures
            self.multiple(quantity) matches Some(c) ==> c.wf() && c@ == self@ * quantity,
    {
        let p = pow10((MAX_SCALE - self.spec_scale()) as nat);
        let m = self.spec_mantissa() as int;
        Amount::lemma_from_parts(quantity, 0);
        self.lemma_product(Amount::from_parts(quantity, 0));
        assert(m * quantity * p == m * p * quantity) by (nonlinear_arith);
    }

    /// The whole number `value`.
    pub fn from_i64(value: i64) -> (r: Amount)
        ensures
            r == Amount::from_parts(value as int, 0),
            r.wf(),
    {
        Amount { mantissa: value as i128, scale: 0 }
    }

    /// Adds two amounts exactly. There is no result where the sum would need more
    /// than 96 bits at the larger of the two scales.
    pub fn checked_add(self, other: Amount) -> (r: Option<Amount>)
        ensures
            r == self.sum(other),
            r is Some <==> sum_fits(self, other),
            r matches Some(c) ==> c.wf() && c@ == self@ + other@,
    {
        proof {
            use_type_invariant(&self);
            use_type_invariant(&other);
        }
        let scale: u32 = if self.scale >= other.scale {
            self.scale
        } else {
            other.scale
        };
        let fits: bool = match (align(self, scale), align(other, scale)) {
            (Some(x), Some(y)) => -MANTISSA_LIMIT < x + y && x + y < MANTISSA_LIMIT,
            _ => false,
        };
        if fits {
            proof {
                self.lemma_sum(other);
            }
            decimal_checked_add(self, other)
        } else {
            None
        }
    }

    /// Subtracts `other` exactly. There is no result where the difference would
    /// need more than 96 bits at the larger of the two scales.
    pub fn checked_sub(self, other: Amount) -> (r: Option<Amount>)
        ensures
            r == self.difference(other),
            r is Some <==> difference_fits(self, other),
            r matches Some(c) ==> c.wf() && c@ == self@ - other@,
    {
        proof {
            use_type_invariant(&self);
            use_type_invariant(&other);
        }
        let scale: u32 = if self.scale >= other.scale {
            self.scale
        } else {
            other.scale
        };
        let fits: bool = match (align(self, scale), align(other, scale)) {
            (Some(x), Some(y)) => -MANTISSA_LIMIT < x - y && x - y < MANTISSA_LIMIT,
            _ => false,
        };
        if fits {
            proof {
                self.lemma_difference(other);
            }
            decimal_checked_sub(self, other)
        } else {
            None
        }
    }

    /// Multiplies two amounts exactly. There is no result where the product of
    /// the mantissas would need more than 96 bits or the scales add up to more
    /// than 28.
    pub fn checked_mul(self, other: Amount) -> (r: Option<Amount>)
        ensures
            r == self.product(other),
            r is Some <==> product_fits(self, other),
            r matches Some(c) ==> c.wf() && c@ == units(
                self.spec_mantissa() * other.spec_mantissa(),
                self.spec_scale() + other.spec_scale(),
            ),
    {
        proof {
            use_type_invariant(&self);
            use_type_invariant(&other);
        }
        let fits: bool = match self.mantissa.checked_mul(other.mantissa) {
            Some(m) => -MANTISSA_LIMIT < m && m < MANTISSA_LIMIT && self.scale + other.scale
                <= MAX_SCALE,
            None => false,
        };
        if fits {
            proof {
                self.lemma_product(other);
            }
            decimal_checked_mul(self, other)
        } else {
            None
        }
    }

    /// The amount taken `quantity` times, exactly. There is no result where the
    /// mantissa times `quantity` would need more than 96 bits.
    pub fn times(self, quantity: i64) -> (r: Option<Amount>)
        ensures
            r == self.multiple(quantity as int),
            r is Some <==> -MANTISSA_LIMIT < self.spec_mantissa() * quantity < MANTISSA_LIMIT,
            r matches Some(c) ==> c.wf() && c@ == self@ * quantity,
    {
        proof {
            use_type_invariant(&self);
            self.lemma_multiple(quantity as int);
            Amount::lemma_from_parts(quantity as int, 0);
        }
        self.checked_mul(Amount::from_i64(quantity))
    }

    /// Whether this amount is less than `other`, as numbers.
    pub fn less_than(self, other: Amount) -> (r: bool)
        ensures
            r == (self@ < other@),
    {
        decimal_less(self, other)
    }

    /// Whether the two amounts denote the same number, whatever their scales.
    pub fn same_value(self, other: Amount) -> (r: bool)
        ensures
            r == (self@ == other@),
    {
        !decimal_less(self, other) && !decimal_less(other, self)
    }

    /// Whether this amount is greater than zero.
    pub fn is_positive(self) -> (r: bool)
        ensures
            r == (self@ > 0),
    {
        proof {
            use_type_invariant(&self);
            let p = pow10((MAX_SCALE - self.spec_scale()) as nat);
            lemma_pow10_positive((MAX_SCALE - self.spec_scale()) as nat);
            let m = self.spec_mantissa() as int;
            assert(p >= 1 ==> ((m > 0) <==> (m * p > 0))) by (nonlinear_arith);
        }
        self.mantissa > 0
    }

    /// Whether this amount is less than zero.
    pub fn is_negative(self) -> (r: bool)
        ensures
            r == (self@ < 0),
    {
        proof {
            use_type_invariant(&self);
            let p = pow10((MAX_SCALE - self.spec_scale()) as nat);
            lemma_pow10_positive((MAX_SCALE - self.spec_scale()) as nat);
            let m = self.spec_mantissa() as int;
            assert(p >= 1 ==> ((m < 0) <==> (m * p < 0))) by (nonlinear_arith);
        }
        self.mantissa < 0
    }
}

} // verus!
