//! Exact fixed-point multipliers and the rescaling of damage figures.

use vstd::prelude::*;

verus! {

/// Poise damage dealt by one hit.
pub type PoiseDamage = u16;

/// The number of units of a [`Multiplier`] that make up a factor of one.
pub const MULTIPLIER_SCALE: i32 = 10000;

/// Poise-damage multiplier of player-versus-player combat, in ten-thousandths.
pub const POISE_DAMAGE_MULTIPLIER: i32 = 8125;

/// A factor held exactly, as a count of ten-thousandths: `10000` is `1.0`,
/// `7500` is `0.75`.
#[derive(Clone, Copy, Debug, PartialEq, Eq, Structural)]
pub struct Multiplier {
    pub ten_thousandths: i32,
}

impl Multiplier {
    /// The factor one, which leaves every figure as it is.
    pub fn one() -> (r: Multiplier)
        ensures
            r.ten_thousandths == MULTIPLIER_SCALE,
    {
        Multiplier { ten_thousandths: MULTIPLIER_SCALE }
    }

    /// The factor `n / 10000`.
    pub fn from_ten_thousandths(n: i32) -> (r: Multiplier)
        ensures
            r.ten_thousandths == n,
    {
        Multiplier { ten_thousandths: n }
    }
}

/// `n × m` truncated toward zero, then held to the range of a damage figure
/// (a negative product gives `0`, one past the largest figure gives the largest).
pub open spec fn scaled_damage(n: PoiseDamage, m: Multiplier) -> PoiseDamage {
    let product = n as int * m.ten_thousandths as int;
    if product <= 0 {
        0
    } else if product / (MULTIPLIER_SCALE as int) > u16::MAX as int {
        u16::MAX
    } else {
        (product / (MULTIPLIER_SCALE as int)) as u16
    }
}

/// Every figure of `s` rescaled by `m`, in the same order.
pub open spec fn scaled_sequence(s: Seq<PoiseDamage>, m: Multiplier) -> Seq<PoiseDamage> {
    s.map_values(|n: PoiseDamage| scaled_damage(n, m))
}

/// Rescales one damage figure.
pub fn scale_damage(n: PoiseDamage, m: Multiplier) -> (r: PoiseDamage)
    ensures
        r == scaled_damage(n, m),
{
    let a: i64 = n as i64;
    let b: i64 = m.ten_thousandths as i64;
    assert(-0x8000_0000_0000 <= a * b <= 0x8000_0000_0000) by (nonlinear_arith)
        requires
            0 <= a <= 0xffff,
            -0x8000_0000 <= b <= 0x7fff_ffff,
    ;
    let product: i64 = a * b;
    if product <= 0 {
        0
    } else {
        let whole: i64 = product / (MULTIPLIER_SCALE as i64);
        if whole > 0xffff {
            0xffff
        } else {
            whole as u16
        }
    }
}

/// Rescales every figure of a sequence.
pub fn scale_sequence(s: &Vec<PoiseDamage>, m: Multiplier) -> (r: Vec<PoiseDamage>)
    ensures
        r@ == scaled_sequence(s@, m),
{
    let mut r: Vec<PoiseDamage> = Vec::new();
    let mut i: usize = 0;
    while i < s.len()
        invariant
            i <= s.len(),
            r@ == scaled_sequence(s@.subrange(0, i as int), m),
        decreases s.len() - i,
    {
        let x = scale_damage(s[i], m);
        r.push(x);
        i = i + 1;
        assert(s@.subrange(0, i as int) == s@.subrange(0, i - 1 as int).push(s@[i - 1]));
    }
    assert(s@.subrange(0, s.len() as int) == s@);
    r
}

/// A factor of one gives back every figure unchanged.
pub proof fn lemma_unit_multiplier_keeps_damage(n: PoiseDamage, m: Multiplier)
    requires
        m.ten_thousandths == MULTIPLIER_SCALE,
    ensures
        scaled_damage(n, m) == n,
{
    let p = n as int * 10000;
    assert(p / 10000 == n as int) by (nonlinear_arith)
        requires
            p == n as int * 10000,
    ;
}

/// Rescaling by a factor of one leaves a damage sequence as it is.
pub proof fn lemma_unit_multiplier_keeps_sequence(s: Seq<PoiseDamage>, m: Multiplier)
    requires
        m.ten_thousandths == MULTIPLIER_SCALE,
    ensures
        scaled_sequence(s, m) == s,
{
    assert forall|i: int| 0 <= i < s.len() implies scaled_sequence(s, m)[i] == s[i] by {
        lemma_unit_multiplier_keeps_damage(s[i], m);
    }
    assert(scaled_sequence(s, m) =~= s);
}

/// Rescaling never changes how many hits a sequence holds, whatever the factor.
pub proof fn lemma_scaling_keeps_length(s: Seq<PoiseDamage>, m: Multiplier)
    ensures
        scaled_sequence(s, m).len() == s.len(),
{
}

} // verus!
