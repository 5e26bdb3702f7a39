use rust_decimal::Decimal;
use vstd::prelude::*;

verus! {

/// The largest scale (number of fractional digits) that an amount can have.
pub const MAX_SCALE: u32 = 28;

/// The largest magnitude of a mantissa: 2^96 - 1.
pub const MAX_MANTISSA: i128 = 0xffff_ffff_ffff_ffff_ffff_ffff;

/// 2^96: mantissas and aligned sums stay strictly below this in magnitude.
pub open spec fn mantissa_limit() -> int {
    MAX_MANTISSA as int + 1
}

/// Ten to the power `n`.
pub open spec fn pow10(n: nat) -> int
    decreases n,
{
    if n == 0 {
        1
    } else {
        10 * pow10((n - 1) as nat)
    }
}

/// An exact decimal number, `mantissa / 10^scale`, in the range that a
/// `rust_decimal::Decimal` holds.
#[derive(Clone, Copy, Debug)]
pub struct Amount {
    pub mantissa: i128,
    pub scale: u32,
}

impl View for Amount {
    type V = (int, int);

    open spec fn view(&self) -> (int, int) {
        (self.mantissa as int, self.scale as int)
    }
}

/// Name for what `Decimal::checked_add` returns, as (mantissa, scale) pairs.
pub uninterp spec fn decimal_sum(a: (int, int), b: (int, int)) -> Option<(int, int)>;

/// Name for what `Decimal::checked_sub` returns, as (mantissa, scale) pairs.
pub uninterp spec fn decimal_difference(a: (int, int), b: (int, int)) -> Option<(int, int)>;

/// The amount with the given (mantissa, scale) pair.
pub open spec fn amount_of(p: (int, int)) -> Amount {
    Amount { mantissa: p.0 as i128, scale: p.1 as u32 }
}

/// `amount_of`, inside an `Option`.
pub open spec fn amount_option(p: Option<(int, int)>) -> Option<Amount> {
    match p {
        Some(q) => Some(amount_of(q)),
        None => None,
    }
}

/// The larger of the two scales.
pub open spec fn max_scale(a: Amount, b: Amount) -> u32 {
    if a.scale >= b.scale {
        a.scale
    } else {
        b.scale
    }
}

impl Amount {
    /// The amount is one that a `Decimal` can hold.
    pub open spec fn wf(self) -> bool {
        &&& self.scale <= MAX_SCALE
        &&& -MAX_MANTISSA <= self.mantissa <= MAX_MANTISSA
    }

    /// The mantissa written at scale `s` (which is at least the amount's own scale).
    pub open spec fn aligned(self, s: nat) -> int {
        self.mantissa * pow10((s - self.scale) as nat)
    }

    /// The exact value, in units of 10^-28.
    pub open spec fn units(self) -> int {
        self.aligned(MAX_SCALE as nat)
    }

    pub open spec fn is_zero(self) -> bool {
        self.mantissa == 0
    }

    /// Both operands and the sum fit in a mantissa at the larger of the two scales, so
    /// the sum is computed without rounding.
    pub open spec fn sum_fits(a: Amount, b: Amount) -> bool {
        let s = max_scale(a, b) as nat;
        &&& -mantissa_limit() < a.aligned(s) < mantissa_limit()
        &&& -mantissa_limit() < b.aligned(s) < mantissa_limit()
        &&& -mantissa_limit() < a.aligned(s) + b.aligned(s) < mantissa_limit()
    }

    /// As `sum_fits`, for the difference.
    pub open spec fn difference_fits(a: Amount, b: Amount) -> bool {
        let s = max_scale(a, b) as nat;
        &&& -mantissa_limit() < a.aligned(s) < mantissa_limit()
        &&& -mantissa_limit() < b.aligned(s) < mantissa_limit()
        &&& -mantissa_limit() < a.aligned(s) - b.aligned(s) < mantissa_limit()
    }

    /// The exact sum, in the form the decimal type gives it: an operand that is zero
    /// hands back the other one, else the sum at the larger scale.
    pub open spec fn exact_sum(a: Amount, b: Amount) -> Amount {
        if a.is_zero() {
            b
        } else if b.is_zero() {
            a
        } else {
            let s = max_scale(a, b);
            Amount { mantissa: (a.aligned(s as nat) + b.aligned(s as nat)) as i128, scale: s }
        }
    }

    /// The exact difference, in the form the decimal type gives it.
    pub open spec fn exact_difference(a: Amount, b: Amount) -> Amount {
        if a.is_zero() {
            Amount { mantissa: (-b.mantissa) as i128, scale: b.scale }
        } else if b.is_zero() {
            a
        } else {
            let s = max_scale(a, b);
            Amount { mantissa: (a.aligned(s as nat) - b.aligned(s as nat)) as i128, scale: s }
        }
    }

    /// What adding two amounts gives: exact where it fits, else what the decimal type gives.
    pub open spec fn plus(a: Amount, b: Amount) -> Option<Amount> {
        if Amount::sum_fits(a, b) {
            Some(Amount::exact_sum(a, b))
        } else {
            amount_option(decimal_sum(a@, b@))
        }
    }

    /// What subtracting two amounts gives: exact where it fits, else what the decimal type gives.
    pub open spec fn minus(a: Amount, b: Amount) -> Option<Amount> {
        if Amount::difference_fits(a, b) {
            Some(Amount::exact_difference(a, b))
        } else {
            amount_option(decimal_difference(a@, b@))
        }
    }
}


/// Relies on `Decimal::checked_add`: `None` only on overflow; operands that fit at the larger
/// scale are added exactly, and a zero operand hands back the other one.
#[verifier::external_body]
fn decimal_checked_add(a: Amount, b: Amount) -> (r: Option<Amount>)
    requires
        a.wf(),
        b.wf(),
    ensures
        r == amount_option(decimal_sum(a@, b@)),
        Amount::sum_fits(a, b) ==> r == Some(Amount::exact_sum(a, b)),
        r matches Some(x) ==> x.wf(),
{
    let x = Decimal::from_i128_with_scale(a.mantissa, a.scale);
    let y = Decimal::from_i128_with_scale(b.mantissa, b.scale);
    match x.checked_add(y) {
        Some(z) => Some(Amount { mantissa: z.mantissa(), scale: z.scale() }),
        None => None,
    }
}

/// Relies on `Decimal::checked_sub`: `None` only on overflow; operands that fit at the larger
/// scale are subtracted exactly, and a zero operand gives the other one, negated on the right.
#[verifier::external_body]
fn decimal_checked_sub(a: Amount, b: Amount) -> (r: Option<Amount>)
    requires
        a.wf(),
        b.wf(),
    ensures
        r == amount_option(decimal_difference(a@, b@)),
        Amount::difference_fits(a, b) ==> r == Some(Amount::exact_difference(a, b)),
        r matches Some(x) ==> x.wf(),
{
    let x = Decimal::from_i128_with_scale(a.mantissa, a.scale);
    let y = Decimal::from_i128_with_scale(b.mantissa, b.scale);
    match x.checked_sub(y) {
        Some(z) => Some(Amount { mantissa: z.mantissa(), scale: z.scale() }),
        None => None,
    }
}

/// Relies on `Decimal`'s `<`, which compares the exact values.
#[verifier::external_body]
fn decimal_lt(a: Amount, b: Amount) -> (r: bool)
    requires
        a.wf(),
        b.wf(),
    ensures
        r == (a.units() < b.units()),
{
    Decimal::from_i128_with_scale(a.mantissa, a.scale) < Decimal::from_i128_with_scale(b.mantissa, b.scale)
}

/// Relies on `Decimal`'s `==`, which compares the exact values.
#[verifier::external_body]
fn decimal_eq(a: Amount, b: Amount) -> (r: bool)
    requires
        a.wf(),
        b.wf(),
    ensures
        r == (a.units() == b.units()),
{
    Decimal::from_i128_with_scale(a.mantissa, a.scale) == Decimal::from_i128_with_scale(b.mantissa, b.scale)
}

impl Amount {
    /// The amount `mantissa / 10^scale`, where a `Decimal` can hold it.
    pub fn try_new(mantissa: i128, scale: u32) -> (r: Option<Amount>)
        ensures
            r matches Some(a) ==> a.wf() && a.mantissa == mantissa && a.scale == scale,
            r is None <==> !(Amount { mantissa, scale }).wf(),
    {
        if scale <= MAX_SCALE && -MAX_MANTISSA <= mantissa && mantissa <= MAX_MANTISSA {
            Some(Amount { mantissa, scale })
        } else {
            None
        }
    }

    /// Zero, written with `scale` fractional digits.
    pub fn zero(scale: u32) -> (r: Amount)
        requires
            scale <= MAX_SCALE,
        ensures
            r.wf(),
            r.mantissa == 0,
            r.scale == scale,
            r.units() == 0,
    {
        Amount { mantissa: 0, scale }
    }

    /// The sum, or `None` where the decimal type overflows.
    pub fn checked_add(self, other: Amount) -> (r: Option<Amount>)
        requires
            self.wf(),
            other.wf(),
        ensures
            r == Amount::plus(self, other),
            r matches Some(x) ==> x.wf(),
            Amount::sum_fits(self, other) ==> (r matches Some(x) && x.units() == self.units() + other.units()),
    {
        proof {
            lemma_exact_sum(self, other);
        }
        decimal_checked_add(self, other)
    }

    /// The difference, or `None` where the decimal type overflows.
    pub fn checked_sub(self, other: Amount) -> (r: Option<Amount>)
        requires
            self.wf(),
            other.wf(),
        ensures
            r == Amount::minus(self, other),
            r matches Some(x) ==> x.wf(),
            Amount::difference_fits(self, other) ==> (r matches Some(x) && x.units() == self.units() - other.units()),
    {
        proof {
            lemma_exact_difference(self, other);
        }
        decimal_checked_sub(self, other)
    }

    /// Whether the value is below that of `other`.
    pub fn less_than(&self, other: &Amount) -> (r: bool)
        requires
            self.wf(),
            other.wf(),
        ensures
            r == (self.units() < other.units()),
    {
        decimal_lt(*self, *other)
    }
}

impl PartialEq for Amount {
    /// Amounts that a `Decimal` holds are equal when their values are; others when their
    /// mantissas and scales are.
    fn eq(&self, other: &Amount) -> (r: bool) {
        if self.scale <= MAX_SCALE && -MAX_MANTISSA <= self.mantissa && self.mantissa <= MAX_MANTISSA
            && other.scale <= MAX_SCALE && -MAX_MANTISSA <= other.mantissa && other.mantissa <= MAX_MANTISSA {
            decimal_eq(*self, *other)
        } else {
            self.mantissa == other.mantissa && self.scale == other.scale
        }
    }
}

impl vstd::std_specs::cmp::PartialEqSpecImpl for Amount {
    open spec fn obeys_eq_spec() -> bool {
        true
    }

    open spec fn eq_spec(&self, other: &Amount) -> bool {
        if self.wf() && other.wf() {
            self.units() == other.units()
        } else {
            self.mantissa == other.mantissa && self.scale == other.scale
        }
    }
}

pub proof fn lemma_pow10_add(m: nat, n: nat)
    ensures
        pow10(m + n) == pow10(m) * pow10(n),
        pow10(m) >= 1,
    decreases m,
{
    if m > 0 {
        lemma_pow10_add((m - 1) as nat, n);
        assert(pow10(m + n) == 10 * pow10((m + n - 1) as nat));
        assert(pow10(m) * pow10(n) == 10 * (pow10((m - 1) as nat) * pow10(n))) by (nonlinear_arith)
            requires pow10(m) == 10 * pow10((m - 1) as nat);
    }
}

/// Writing an amount at a larger scale multiplies its aligned mantissa by a power of ten.
pub proof fn lemma_aligned_rescale(a: Amount, s: nat, t: nat)
    requires
        a.scale <= s <= t,
    ensures
        a.aligned(t) == a.aligned(s) * pow10((t - s) as nat),
        pow10((t - s) as nat) >= 1,
{
    lemma_pow10_add((s - a.scale) as nat, (t - s) as nat);
    lemma_pow10_add((t - s) as nat, 0);
    assert((t - a.scale) as nat == ((s - a.scale) as nat + (t - s) as nat) as nat);
    assert(a.mantissa * (pow10((s - a.scale) as nat) * pow10((t - s) as nat)) == (a.mantissa * pow10(
        (s - a.scale) as nat,
    )) * pow10((t - s) as nat)) by (nonlinear_arith);
}

pub proof fn lemma_zero_aligned(a: Amount, t: nat)
    requires
        a.is_zero(),
    ensures
        a.aligned(t) == 0,
{
    assert(a.mantissa * pow10((t - a.scale) as nat) == 0) by (nonlinear_arith)
        requires a.mantissa == 0;
}

/// The sum in the decimal type's form has the value and the aligned mantissas of the
/// exact sum, at any scale from the larger operand scale up.
pub proof fn lemma_exact_sum(a: Amount, b: Amount)
    requires
        a.wf(),
        b.wf(),
    ensures
        Amount::sum_fits(a, b) ==> {
            let r = Amount::exact_sum(a, b);
            &&& r.wf()
            &&& r.scale <= max_scale(a, b)
            &&& forall|t: nat| max_scale(a, b) <= t <= MAX_SCALE ==> #[trigger] r.aligned(t) == a.aligned(t) + b.aligned(t)
            &&& r.units() == a.units() + b.units()
        },
{
    if Amount::sum_fits(a, b) {
        let r = Amount::exact_sum(a, b);
        let s = max_scale(a, b) as nat;
        assert forall|t: nat| max_scale(a, b) <= t <= MAX_SCALE implies #[trigger] r.aligned(t) == a.aligned(t) + b.aligned(t) by {
            lemma_aligned_rescale(a, s, t);
            lemma_aligned_rescale(b, s, t);
            if a.is_zero() {
                lemma_aligned_rescale(b, b.scale as nat, t);
                lemma_zero_aligned(a, t);
            } else if b.is_zero() {
                lemma_zero_aligned(b, t);
            } else {
                lemma_aligned_rescale(r, s, t);
                assert(r.aligned(s) == a.aligned(s) + b.aligned(s));
                assert((a.aligned(s) + b.aligned(s)) * pow10((t - s) as nat) == a.aligned(s) * pow10((t - s) as nat) + b.aligned(s) * pow10((t - s) as nat)) by (nonlinear_arith);
            }
        }
        assert(r.aligned(MAX_SCALE as nat) == a.aligned(MAX_SCALE as nat) + b.aligned(MAX_SCALE as nat));
    }
}

/// As `lemma_exact_sum`, for the difference.
pub proof fn lemma_exact_difference(a: Amount, b: Amount)
    requires
        a.wf(),
        b.wf(),
    ensures
        Amount::difference_fits(a, b) ==> {
            let r = Amount::exact_difference(a, b);
            &&& r.wf()
            &&& r.scale <= max_scale(a, b)
            &&& forall|t: nat| max_scale(a, b) <= t <= MAX_SCALE ==> #[trigger] r.aligned(t) == a.aligned(t) - b.aligned(t)
            &&& r.units() == a.units() - b.units()
        },
{
    if Amount::difference_fits(a, b) {
        let r = Amount::exact_difference(a, b);
        let s = max_scale(a, b) as nat;
        assert forall|t: nat| max_scale(a, b) <= t <= MAX_SCALE implies #[trigger] r.aligned(t) == a.aligned(t) - b.aligned(t) by {
            lemma_aligned_rescale(a, s, t);
            lemma_aligned_rescale(b, s, t);
            if a.is_zero() {
                lemma_zero_aligned(a, t);
                assert(r.aligned(t) == -b.mantissa * pow10((t - b.scale) as nat));
                assert(-b.mantissa * pow10((t - b.scale) as nat) == -(b.mantissa * pow10((t - b.scale) as nat))) by (nonlinear_arith);
            } else if b.is_zero() {
                lemma_zero_aligned(b, t);
            } else {
                lemma_aligned_rescale(r, s, t);
                assert(r.aligned(s) == a.aligned(s) - b.aligned(s));
                assert((a.aligned(s) - b.aligned(s)) * pow10((t - s) as nat) == a.aligned(s) * pow10((t - s) as nat) - b.aligned(s) * pow10((t - s) as nat)) by (nonlinear_arith);
            }
        }
        assert(r.aligned(MAX_SCALE as nat) == a.aligned(MAX_SCALE as nat) - b.aligned(MAX_SCALE as nat));
    }
}

/// The absolute value.
pub open spec fn magnitude(x: int) -> int {
    if x < 0 {
        -x
    } else {
        x
    }
}

/// Writing two amounts at a smaller scale (still at least their own) makes neither them
/// nor their sum or difference larger in magnitude.
pub proof fn lemma_aligned_shrink(y: Amount, z: Amount, s2: nat, s1: nat)
    requires
        y.scale <= s2,
        z.scale <= s2,
        s2 <= s1,
    ensures
        magnitude(y.aligned(s2)) <= magnitude(y.aligned(s1)),
        magnitude(z.aligned(s2)) <= magnitude(z.aligned(s1)),
        magnitude(y.aligned(s2) + z.aligned(s2)) <= magnitude(y.aligned(s1) + z.aligned(s1)),
        magnitude(y.aligned(s2) - z.aligned(s2)) <= magnitude(y.aligned(s1) - z.aligned(s1)),
{
    lemma_aligned_rescale(y, s2, s1);
    lemma_aligned_rescale(z, s2, s1);
    let p = pow10((s1 - s2) as nat);
    let y2 = y.aligned(s2);
    let z2 = z.aligned(s2);
    assert(magnitude(y2) <= magnitude(y2 * p)) by (nonlinear_arith)
        requires p >= 1;
    assert(magnitude(z2) <= magnitude(z2 * p)) by (nonlinear_arith)
        requires p >= 1;
    assert(magnitude(y2 + z2) <= magnitude(y2 * p + z2 * p)) by (nonlinear_arith)
        requires p >= 1;
    assert(magnitude(y2 - z2) <= magnitude(y2 * p - z2 * p)) by (nonlinear_arith)
        requires p >= 1;
}

} // verus!
