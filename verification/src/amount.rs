//! Decimal trade amounts, held as a mantissa and a decimal scale.
//!
//! An amount `(m, s)` stands for the number `m / 10^s`. The scale is at most
//! 28 and the mantissa's magnitude is below `2^96`, the range of a 96-bit
//! decimal.
use vstd::prelude::*;
use vstd::arithmetic::mul::lemma_mul_equality_converse;

verus! {

/// `10^n`.
pub open spec fn pow10(n: nat) -> int
    decreases n,
{
    if n == 0 {
        1
    } else {
        10 * pow10((n - 1) as nat)
    }
}

/// Every power of ten is positive.
pub proof fn lemma_pow10_positive(n: nat)
    ensures
        pow10(n) > 0,
    decreases n,
{
    if n > 0 {
        lemma_pow10_positive((n - 1) as nat);
    }
}

/// `10^(a + b) == 10^a * 10^b`.
pub proof fn lemma_pow10_adds(a: nat, b: nat)
    ensures
        pow10(a + b) == pow10(a) * pow10(b),
    decreases a,
{
    if a > 0 {
        lemma_pow10_adds((a - 1) as nat, b);
        let p = pow10((a - 1) as nat);
        let q = pow10(b);
        assert(pow10(a + b) == 10 * pow10((a - 1 + b) as nat));
        assert(10 * (p * q) == (10 * p) * q) by (nonlinear_arith);
    }
}

/// The largest scale an amount may have.
pub const MAX_SCALE: u32 = 28;

/// The bound (exclusive) on an amount's mantissa magnitude: `2^96`.
pub const MANTISSA_BOUND: i128 = 79228162514264337593543950336;

/// A decimal amount `mantissa / 10^scale`.
#[derive(Clone, Copy, Debug)]
pub struct Amount {
    mantissa: i128,
    scale: u32,
}

/// The number `v.0 / 10^v.1` is below the whole number `k`.
pub open spec fn below_whole(v: (int, nat), k: int) -> bool {
    v.0 < k * pow10(v.1)
}

/// The number `v.0 / 10^v.1` is above the whole number `k`.
pub open spec fn above_whole(v: (int, nat), k: int) -> bool {
    v.0 > k * pow10(v.1)
}

/// The two pairs stand for the same number.
pub open spec fn same_value(a: (int, nat), b: (int, nat)) -> bool {
    a.0 * pow10(b.1) == b.0 * pow10(a.1)
}

/// No trailing zero can be taken off the mantissa.
pub open spec fn is_normalized(a: (int, nat)) -> bool {
    a.1 == 0 || a.0 % 10 != 0
}

/// The pair with every trailing zero of the mantissa taken off.
pub open spec fn normalize(a: (int, nat)) -> (int, nat)
    decreases a.1,
{
    if a.1 > 0 && a.0 % 10 == 0 {
        normalize((a.0 / 10, (a.1 - 1) as nat))
    } else {
        a
    }
}

/// The pair lies in the range of an amount.
pub open spec fn in_amount_range(m: int, s: int) -> bool {
    0 <= s <= MAX_SCALE && -MANTISSA_BOUND < m < MANTISSA_BOUND
}

impl View for Amount {
    type V = (int, nat);

    closed spec fn view(&self) -> (int, nat) {
        (self.mantissa as int, self.scale as nat)
    }
}

/// `pow10(s)` for a scale an amount can have, computed exactly.
fn pow10_of_scale(s: u32) -> (r: i128)
    requires
        s <= MAX_SCALE,
    ensures
        r == pow10(s as nat),
{
    let mut r: i128 = 1;
    let mut i: u32 = 0;
    while i < s
        invariant
            i <= s <= MAX_SCALE,
            r == pow10(i as nat),
        decreases s - i,
    {
        proof {
            lemma_pow10_bounded(i as nat);
            let n: nat = i as nat;
            assert(pow10(n + 1) == 10 * pow10(n));
            lemma_pow10_positive(n);
        }
        r = r * 10;
        i = i + 1;
    }
    r
}

/// Below the largest scale, one more factor of ten stays within `10^28`.
proof fn lemma_pow10_bounded(n: nat)
    requires
        n < MAX_SCALE,
    ensures
        pow10(n + 1) <= 10000000000000000000000000000,
{
    lemma_pow10_monotone((n + 1) as nat, MAX_SCALE as nat);
    lemma_pow10_max_scale();
}

/// `10^28`, the largest power an amount's scale reaches.
proof fn lemma_pow10_max_scale()
    ensures
        pow10(28) == 10000000000000000000000000000,
{
    reveal_with_fuel(pow10, 29);
}

/// Powers of ten grow with the exponent.
proof fn lemma_pow10_monotone(a: nat, b: nat)
    requires
        a <= b,
    ensures
        pow10(a) <= pow10(b),
    decreases b,
{
    lemma_pow10_positive(b);
    if a < b {
        lemma_pow10_monotone(a, (b - 1) as nat);
    }
}

impl Amount {
    #[verifier::type_invariant]
    spec fn in_range(self) -> bool {
        in_amount_range(self.mantissa as int, self.scale as int)
    }

    /// The amount `mantissa / 10^scale`, when it lies in range.
    pub fn from_parts(mantissa: i128, scale: u32) -> (r: Option<Amount>)
        ensures
            r is Some <==> in_amount_range(mantissa as int, scale as int),
            r matches Some(a) ==> a@ == (mantissa as int, scale as nat),
    {
        if scale <= MAX_SCALE && -MANTISSA_BOUND < mantissa && mantissa < MANTISSA_BOUND {
            Some(Amount { mantissa, scale })
        } else {
            None
        }
    }

    /// The whole number `n`.
    pub fn whole(n: u32) -> (r: Amount)
        ensures
            r@ == (n as int, 0nat),
    {
        Amount { mantissa: n as i128, scale: 0 }
    }

    /// The mantissa.
    pub fn mantissa(&self) -> (r: i128)
        ensures
            r == self@.0,
    {
        self.mantissa
    }

    /// The decimal scale.
    pub fn scale(&self) -> (r: u32)
        ensures
            r == self@.1,
    {
        self.scale
    }

    /// The amount is above zero.
    pub fn is_positive(&self) -> (r: bool)
        ensures
            r == (self@.0 > 0),
    {
        self.mantissa > 0
    }

    /// The amount is below the whole number `k`.
    pub fn is_below_whole(&self, k: u32) -> (r: bool)
        ensures
            r == below_whole(self@, k as int),
    {
        proof {
            use_type_invariant(self);
        }
        let p = pow10_of_scale(self.scale);
        proof {
            lemma_pow10_monotone(self.scale as nat, MAX_SCALE as nat);
            lemma_pow10_positive(self.scale as nat);
            lemma_pow10_max_scale();
            assert(0 <= (k as int) * (p as int) <= 4294967295 * 10000000000000000000000000000)
                by (nonlinear_arith)
                requires
                    0 < p <= 10000000000000000000000000000,
                    0 <= k <= 4294967295,
            ;
        }
        let bound = (k as i128) * p;
        self.mantissa < bound
    }

    /// The amount is above the whole number `k`.
    pub fn is_above_whole(&self, k: u32) -> (r: bool)
        ensures
            r == above_whole(self@, k as int),
    {
        proof {
            use_type_invariant(self);
        }
        let p = pow10_of_scale(self.scale);
        proof {
            lemma_pow10_monotone(self.scale as nat, MAX_SCALE as nat);
            lemma_pow10_positive(self.scale as nat);
            lemma_pow10_max_scale();
            assert(0 <= (k as int) * (p as int) <= 4294967295 * 10000000000000000000000000000)
                by (nonlinear_arith)
                requires
                    0 < p <= 10000000000000000000000000000,
                    0 <= k <= 4294967295,
            ;
        }
        let bound = (k as i128) * p;
        self.mantissa > bound
    }

    /// The same number with every trailing zero of the mantissa taken off.
    pub fn normalized(&self) -> (r: Amount)
        ensures
            r@ == normalize(self@),
    {
        proof {
            use_type_invariant(self);
        }
        let negative = self.mantissa < 0;
        let mut magnitude: u128 = if negative {
            (-self.mantissa) as u128
        } else {
            self.mantissa as u128
        };
        let mut scale = self.scale;
        while scale > 0 && magnitude % 10 == 0
            invariant
                scale <= self.scale <= MAX_SCALE,
                magnitude < MANTISSA_BOUND,
                normalize(self@) == normalize(
                    (if negative { -(magnitude as int) } else { magnitude as int }, scale as nat),
                ),
            decreases scale,
        {
            let ghost before: (int, nat) = (
                if negative { -(magnitude as int) } else { magnitude as int },
                scale as nat,
            );
            let q = magnitude / 10;
            proof {
                let mg = magnitude as int;
                let qi = q as int;
                assert(mg == 10 * qi) by (nonlinear_arith)
                    requires
                        qi == mg / 10,
                        mg % 10 == 0,
                        mg >= 0,
                ;
                assert(before.0 % 10 == 0 && before.0 / 10 == (if negative { -qi } else { qi }))
                    by (nonlinear_arith)
                    requires
                        mg == 10 * qi,
                        before.0 == (if negative { -mg } else { mg }),
                ;
            }
            magnitude = q;
            scale = scale - 1;
        }
        let mantissa: i128 = if negative {
            -(magnitude as i128)
        } else {
            magnitude as i128
        };
        Amount { mantissa, scale }
    }

    /// The two amounts have the same parts.
    pub fn same_parts(&self, other: &Amount) -> (r: bool)
        ensures
            r == (self@ == other@),
    {
        self.mantissa == other.mantissa && self.scale == other.scale
    }
}

/// Normalizing keeps the number and leaves no trailing zero.
pub proof fn lemma_normalize_keeps_value(a: (int, nat))
    ensures
        same_value(normalize(a), a),
        is_normalized(normalize(a)),
        normalize(a).1 <= a.1,
    decreases a.1,
{
    if a.1 > 0 && a.0 % 10 == 0 {
        let b: (int, nat) = (a.0 / 10, (a.1 - 1) as nat);
        lemma_normalize_keeps_value(b);
        let p = pow10(b.1);
        assert(pow10(a.1) == 10 * p);
        assert(a.0 == 10 * b.0) by (nonlinear_arith)
            requires
                a.0 % 10 == 0,
                b.0 == a.0 / 10,
        ;
        assert(b.0 * pow10(a.1) == a.0 * pow10(b.1)) by (nonlinear_arith)
            requires
                pow10(a.1) == 10 * p,
                a.0 == 10 * b.0,
                p == pow10(b.1),
        ;
        lemma_same_value_transitive(normalize(b), b, a);
    } else {
        assert(same_value(a, a));
    }
}

/// Standing for the same number is transitive.
pub proof fn lemma_same_value_transitive(x: (int, nat), y: (int, nat), z: (int, nat))
    requires
        same_value(x, y),
        same_value(y, z),
    ensures
        same_value(x, z),
{
    let px = pow10(x.1);
    let py = pow10(y.1);
    let pz = pow10(z.1);
    lemma_pow10_positive(y.1);
    assert(py * (x.0 * pz) == py * (z.0 * px)) by (nonlinear_arith)
        requires
            x.0 * py == y.0 * px,
            y.0 * pz == z.0 * py,
    ;
    lemma_mul_equality_converse(py, x.0 * pz, z.0 * px);
}

/// Two normalized pairs that stand for the same number are the same pair.
pub proof fn lemma_normalized_unique(x: (int, nat), y: (int, nat))
    requires
        is_normalized(x),
        is_normalized(y),
        same_value(x, y),
    ensures
        x == y,
{
    if x.1 <= y.1 {
        lemma_normalized_unique_ordered(x, y);
    } else {
        lemma_normalized_unique_ordered(y, x);
    }
}

proof fn lemma_normalized_unique_ordered(x: (int, nat), y: (int, nat))
    requires
        is_normalized(x),
        is_normalized(y),
        same_value(x, y),
        x.1 <= y.1,
    ensures
        x == y,
{
    let d = (y.1 - x.1) as nat;
    lemma_pow10_adds(x.1, d);
    assert(x.1 + d == y.1);
    let px = pow10(x.1);
    let pd = pow10(d);
    lemma_pow10_positive(x.1);
    assert(px * (x.0 * pd) == px * y.0) by (nonlinear_arith)
        requires
            x.0 * pow10(y.1) == y.0 * px,
            pow10(y.1) == px * pd,
    ;
    lemma_mul_equality_converse(px, x.0 * pd, y.0);
    if d > 0 {
        let pd1 = pow10((d - 1) as nat);
        assert(pd == 10 * pd1);
        assert(y.0 == 10 * (x.0 * pd1)) by (nonlinear_arith)
            requires
                y.0 == x.0 * pd,
                pd == 10 * pd1,
        ;
        assert(y.0 % 10 == 0) by (nonlinear_arith)
            requires
                y.0 == 10 * (x.0 * pd1),
        ;
        assert(false);
    }
    assert(pd == 1);
}

/// Two amounts stand for the same number exactly when their normalized forms
/// are equal.
pub proof fn law_normalized_equal_iff_same_value(a: (int, nat), b: (int, nat))
    ensures
        (normalize(a) == normalize(b)) <==> same_value(a, b),
{
    lemma_normalize_keeps_value(a);
    lemma_normalize_keeps_value(b);
    let na = normalize(a);
    let nb = normalize(b);
    lemma_same_value_symmetric(na, a);
    lemma_same_value_symmetric(nb, b);
    if na == nb {
        lemma_same_value_transitive(a, na, b);
    }
    if same_value(a, b) {
        lemma_same_value_transitive(na, a, b);
        lemma_same_value_transitive(na, b, nb);
        lemma_normalized_unique(na, nb);
    }
}

/// Standing for the same number is symmetric.
pub proof fn lemma_same_value_symmetric(x: (int, nat), y: (int, nat))
    requires
        same_value(x, y),
    ensures
        same_value(y, x),
{
}

/// Powers of ten: `10^0 == 1`, and each next power is ten times the last.
pub proof fn law_pow10_steps(n: nat)
    ensures
        pow10(0) == 1,
        pow10(n + 1) == 10 * pow10(n),
{
    assert(pow10(n + 1) == 10 * pow10(((n + 1) - 1) as nat));
}

/// An amount `(m, s)`, standing for `m / 10^s`, is above the whole number `k`
/// exactly when `m > k * 10^s`, and below it exactly when `m < k * 10^s`.
pub proof fn law_whole_comparisons_by_value(v: (int, nat), k: int)
    ensures
        above_whole(v, k) <==> v.0 > k * pow10(v.1),
        below_whole(v, k) <==> v.0 < k * pow10(v.1),
{
}

/// Comparing with a whole number depends only on the number an amount stands
/// for: two amounts of the same value are both above (or both below) `k`, or
/// neither is.
pub proof fn law_whole_comparisons_follow_value(a: (int, nat), b: (int, nat), k: int)
    requires
        same_value(a, b),
    ensures
        above_whole(a, k) == above_whole(b, k),
        below_whole(a, k) == below_whole(b, k),
{
    let pa = pow10(a.1);
    let pb = pow10(b.1);
    lemma_pow10_positive(a.1);
    lemma_pow10_positive(b.1);
    assert(above_whole(a, k) == above_whole(b, k) && below_whole(a, k) == below_whole(b, k))
        by (nonlinear_arith)
        requires
            a.0 * pb == b.0 * pa,
            pa > 0,
            pb > 0,
            above_whole(a, k) == (a.0 > k * pa),
            above_whole(b, k) == (b.0 > k * pb),
            below_whole(a, k) == (a.0 < k * pa),
            below_whole(b, k) == (b.0 < k * pb),
    ;
}

/// A whole amount `(m, 0)` is above `k` exactly when `m > k` and below it
/// exactly when `m < k`.
pub proof fn law_whole_amounts_compare_directly(m: int, k: int)
    ensures
        above_whole((m, 0nat), k) <==> m > k,
        below_whole((m, 0nat), k) <==> m < k,
{
}

} // verus!
