//! The closed catalogue of attack categories.

use vstd::prelude::*;

use crate::multiplier::Multiplier;

verus! {

/// The size class of the target of a backstab or a riposte.
#[derive(Clone, Copy, Debug, Default, PartialEq, Eq, Structural)]
pub enum CriticalSize {
    #[default]
    Default,
    Small,
    Large,
}

/// One move type. Chain-indexed variants carry the step, counted from `0`;
/// a weapon has at most six steps in a chain.
#[derive(Clone, Copy, Debug, Default, PartialEq, Eq, Structural)]
pub enum Attacks {
    #[default]
    NoAttack,
    OneHandedR1Chain(u8),
    OneHandedR1Running,
    OneHandedR1Rolling,
    OneHandedR1Backstep,
    OneHandedR1Jumping,
    OneHandedR1GuardCounter,
    OneHandedR2Chain(u8),
    OneHandedR2Charged(u8),
    OneHandedR2Running,
    OneHandedR2Jumping,
    OneHandedR2Feint(u8),
    TwoHandedR1Chain(u8),
    TwoHandedR1Running,
    TwoHandedR1Rolling,
    TwoHandedR1Backstep,
    TwoHandedR1Jumping,
    TwoHandedR1GuardCounter,
    TwoHandedR2Chain(u8),
    TwoHandedR2Charged(u8),
    TwoHandedR2Running,
    TwoHandedR2Jumping,
    TwoHandedR2Feint(u8),
    PairedL1Chain(u8),
    PairedL1Running,
    PairedL1Rolling,
    PairedL1Backstep,
    PairedL1Jumping,
    OffHandR1Chain(u8),
    Backstab(CriticalSize),
    Riposte(CriticalSize),
    Shieldpoke,
}

impl Attacks {
    /// The hyperarmour multiplier of the category, in ten-thousandths.
    pub open spec fn hyper_armour_units(self) -> int {
        match self {
            Attacks::NoAttack => 0,
            Attacks::OneHandedR1Running | Attacks::OneHandedR1Rolling
            | Attacks::OneHandedR1Backstep | Attacks::OneHandedR1Jumping
            | Attacks::TwoHandedR1Running | Attacks::TwoHandedR1Rolling
            | Attacks::TwoHandedR1Backstep | Attacks::TwoHandedR1Jumping => 7500,
            Attacks::OneHandedR1GuardCounter | Attacks::TwoHandedR1GuardCounter => 5000,
            Attacks::OneHandedR2Charged(_) | Attacks::TwoHandedR2Charged(_) => 20000,
            _ => 10000,
        }
    }

    /// Swung with both hands.
    pub open spec fn two_handed(self) -> bool {
        match self {
            Attacks::TwoHandedR1Chain(_) | Attacks::TwoHandedR1Running
            | Attacks::TwoHandedR1Rolling | Attacks::TwoHandedR1Backstep
            | Attacks::TwoHandedR1Jumping | Attacks::TwoHandedR1GuardCounter
            | Attacks::TwoHandedR2Chain(_) | Attacks::TwoHandedR2Charged(_)
            | Attacks::TwoHandedR2Running | Attacks::TwoHandedR2Jumping
            | Attacks::TwoHandedR2Feint(_) => true,
            _ => false,
        }
    }

    /// A heavy (R2) swing, with either grip.
    pub open spec fn heavy_class(self) -> bool {
        match self {
            Attacks::OneHandedR2Chain(_) | Attacks::OneHandedR2Charged(_)
            | Attacks::OneHandedR2Running | Attacks::OneHandedR2Jumping
            | Attacks::OneHandedR2Feint(_) | Attacks::TwoHandedR2Chain(_)
            | Attacks::TwoHandedR2Charged(_) | Attacks::TwoHandedR2Running
            | Attacks::TwoHandedR2Jumping | Attacks::TwoHandedR2Feint(_) => true,
            _ => false,
        }
    }

    /// The multiplier applied to a weapon's innate poise while this attack is
    /// swung: `0.75` for running, rolling, backstep and jumping light attacks,
    /// `0.5` for guard counters, `2.0` for charged heavy attacks, `0` for no
    /// attack and `1.0` for everything else.
    pub fn get_hyper_armour_multiplier(&self) -> (r: Multiplier)
        ensures
            r.ten_thousandths == self.hyper_armour_units(),
    {
        let units: i32 = match self {
            Attacks::NoAttack => 0,
            Attacks::OneHandedR1Running | Attacks::OneHandedR1Rolling
            | Attacks::OneHandedR1Backstep | Attacks::OneHandedR1Jumping
            | Attacks::TwoHandedR1Running | Attacks::TwoHandedR1Rolling
            | Attacks::TwoHandedR1Backstep | Attacks::TwoHandedR1Jumping => 7500,
            Attacks::OneHandedR1GuardCounter | Attacks::TwoHandedR1GuardCounter => 5000,
            Attacks::OneHandedR2Charged(_) | Attacks::TwoHandedR2Charged(_) => 20000,
            _ => 10000,
        };
        Multiplier::from_ten_thousandths(units)
    }

    /// Whether the attack is swung with both hands.
    pub fn is_two_handed(&self) -> (r: bool)
        ensures
            r == self.two_handed(),
    {
        match self {
            Attacks::TwoHandedR1Chain(_) | Attacks::TwoHandedR1Running
            | Attacks::TwoHandedR1Rolling | Attacks::TwoHandedR1Backstep
            | Attacks::TwoHandedR1Jumping | Attacks::TwoHandedR1GuardCounter
            | Attacks::TwoHandedR2Chain(_) | Attacks::TwoHandedR2Charged(_)
            | Attacks::TwoHandedR2Running | Attacks::TwoHandedR2Jumping
            | Attacks::TwoHandedR2Feint(_) => true,
            _ => false,
        }
    }

    /// Whether the attack is a heavy (R2) swing.
    pub fn is_heavy_class(&self) -> (r: bool)
        ensures
            r == self.heavy_class(),
    {
        match self {
            Attacks::OneHandedR2Chain(_) | Attacks::OneHandedR2Charged(_)
            | Attacks::OneHandedR2Running | Attacks::OneHandedR2Jumping
            | Attacks::OneHandedR2Feint(_) | Attacks::TwoHandedR2Chain(_)
            | Attacks::TwoHandedR2Charged(_) | Attacks::TwoHandedR2Running
            | Attacks::TwoHandedR2Jumping | Attacks::TwoHandedR2Feint(_) => true,
            _ => false,
        }
    }
}

} // verus!
