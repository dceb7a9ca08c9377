//! Exact decimal prices: a mantissa and a count of fractional digits.
use vstd::prelude::*;

verus! {

/// The largest mantissa a `Price` holds (eighteen nines).
pub const MAX_MANTISSA: u64 = 999_999_999_999_999_999;

/// The largest number of fractional digits a `Price` holds.
pub const MAX_SCALE: u32 = 18;

/// `10` raised to `n`.
pub open spec fn pow10(n: nat) -> nat
    decreases n,
{
    if n == 0 {
        1
    } else {
        10 * pow10((n - 1) as nat)
    }
}

/// A price worth `mantissa / 10^scale`.
#[derive(Clone, Copy, Debug)]
pub struct Price {
    pub mantissa: u64,
    pub scale: u32,
}

impl Price {
    /// Both parts lie within the bounds that keep comparisons exact.
    pub open spec fn wf(self) -> bool {
        self.mantissa <= MAX_MANTISSA && self.scale <= MAX_SCALE
    }

    /// `self` is worth strictly less than `other`, compared as rationals.
    pub open spec fn less_than(self, other: Price) -> bool {
        self.mantissa * pow10(other.scale as nat) < other.mantissa * pow10(self.scale as nat)
    }

    /// `self` rounded to whole hundredths, halves rounded up.
    pub open spec fn cents(self) -> nat {
        ((200 * self.mantissa + pow10(self.scale as nat)) as int / (2 * pow10(self.scale as nat)) as int) as nat
    }

    /// The price zero.
    pub fn zero() -> (r: Price)
        ensures
            r.wf(),
            r.mantissa == 0,
            r.scale == 0,
    {
        Price { mantissa: 0, scale: 0 }
    }

    /// A price of `mantissa / 10^scale`, where both parts are within bounds.
    pub fn new(mantissa: u64, scale: u32) -> (r: Option<Price>)
        ensures
            r matches Some(p) <==> (mantissa <= MAX_MANTISSA && scale <= MAX_SCALE),
            r matches Some(p) ==> p.mantissa == mantissa && p.scale == scale,
    {
        if mantissa <= MAX_MANTISSA && scale <= MAX_SCALE {
            Some(Price { mantissa, scale })
        } else {
            None
        }
    }

    /// Whether `self` is worth strictly less than `other`.
    pub fn is_below(&self, other: &Price) -> (r: bool)
        requires
            self.wf(),
            other.wf(),
        ensures
            r == self.less_than(*other),
    {
        let pa = pow10_exec(other.scale);
        let pb = pow10_exec(self.scale);
        proof {
            lemma_mul_bound(self.mantissa as nat, pa as nat);
            lemma_mul_bound(other.mantissa as nat, pb as nat);
        }
        let a = self.mantissa as u128 * pa;
        let b = other.mantissa as u128 * pb;
        a < b
    }

    /// `self` rounded to whole hundredths, halves rounded up.
    pub fn to_cents(&self) -> (r: u128)
        requires
            self.wf(),
        ensures
            r == self.cents(),
    {
        let p = pow10_exec(self.scale);
        (200 * self.mantissa as u128 + p) / (2 * p)
    }
}

proof fn lemma_pow10_monotone(m: nat, n: nat)
    requires
        m <= n,
    ensures
        1 <= pow10(m) <= pow10(n),
    decreases n,
{
    if n > m {
        lemma_pow10_monotone(m, (n - 1) as nat);
    } else if m > 0 {
        lemma_pow10_monotone((m - 1) as nat, (m - 1) as nat);
    }
}

proof fn lemma_pow10_bounds(n: nat)
    ensures
        1 <= pow10(n),
        n <= 18 ==> pow10(n) <= 1_000_000_000_000_000_000,
{
    lemma_pow10_monotone(n, n);
    if n <= 18 {
        lemma_pow10_monotone(n, 18);
        reveal_with_fuel(pow10, 19);
    }
}

proof fn lemma_mul_bound(a: nat, b: nat)
    requires
        a <= 1_000_000_000_000_000_000,
        b <= 1_000_000_000_000_000_000,
    ensures
        a * b <= 1_000_000_000_000_000_000_000_000_000_000_000_000,
{
    assert(a * b <= 1_000_000_000_000_000_000_000_000_000_000_000_000) by (nonlinear_arith)
        requires
            a <= 1_000_000_000_000_000_000,
            b <= 1_000_000_000_000_000_000,
    ;
}

/// `10^n` as a machine integer.
fn pow10_exec(n: u32) -> (r: u128)
    requires
        n <= MAX_SCALE,
    ensures
        r == pow10(n as nat),
        1 <= r <= 1_000_000_000_000_000_000,
{
    let mut r: u128 = 1;
    let mut i: u32 = 0;
    while i < n
        invariant
            i <= n <= MAX_SCALE,
            r == pow10(i as nat),
        decreases n - i,
    {
        proof {
            lemma_pow10_bounds(i as nat);
        }
        r = r * 10;
        i = i + 1;
    }
    proof {
        lemma_pow10_bounds(n as nat);
    }
    r
}

} // verus!
