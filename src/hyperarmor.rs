//! The hyperarmour that a weapon grants while an attack is swung.

use vstd::prelude::*;

use crate::attack::Attacks;
use crate::multiplier::Multiplier;
use crate::text::text_eq;

verus! {

/// A poise figure held exactly, as a count of ten-thousandths.
#[derive(Clone, Copy, Debug, PartialEq, Eq, Structural)]
pub struct ScaledPoise {
    pub ten_thousandths: i64,
}

impl ScaledPoise {
    /// The whole part, truncated toward zero.
    pub fn whole(&self) -> (r: i64)
        ensures
            self.ten_thousandths >= 0 ==> r as int == self.ten_thousandths as int / 10000,
            self.ten_thousandths < 0 ==> r as int == -((-(self.ten_thousandths as int)) / 10000),
    {
        if self.ten_thousandths >= 0 {
            self.ten_thousandths / 10000
        } else {
            -((-(self.ten_thousandths as i128)) / 10000) as i64
        }
    }
}

/// The hyperarmour, in ten-thousandths of poise, for a weapon of innate poise
/// `poise`, class `class` and name `name` swinging `attack` whose multiplier is `m`:
/// - above 77 the full `poise × m`;
/// - from 52 to 77: for a Great Katana the full value only on Rakshasa's Great
///   Katana; for a Hammer only on two-handed or heavy swings; for any other
///   class only on two-handed swings; `0` otherwise;
/// - below 52 nothing.
pub open spec fn hyperarmor_units(
    poise: u16,
    m: Multiplier,
    class: Seq<char>,
    name: Seq<char>,
    attack: Attacks,
) -> int {
    let full = poise as int * m.ten_thousandths as int;
    if poise > 77 {
        full
    } else if poise >= 52 {
        if class == "Great Katana"@ {
            if name == "Rakshasa's Great Katana"@ {
                full
            } else {
                0
            }
        } else if class == "Hammer"@ {
            if attack.two_handed() || attack.heavy_class() {
                full
            } else {
                0
            }
        } else if attack.two_handed() {
            full
        } else {
            0
        }
    } else {
        0
    }
}

/// Derives the hyperarmour of a weapon while it swings `attack`, following
/// [`hyperarmor_units`].
pub fn weapon_hyperarmor_from_weapon_and_attack(
    innate_weapon_poise: u16,
    hyper_armor_multiplier: Multiplier,
    weapon_class: &String,
    weapon: &String,
    attack: &Attacks,
) -> (r: ScaledPoise)
    ensures
        r.ten_thousandths as int == hyperarmor_units(
            innate_weapon_poise,
            hyper_armor_multiplier,
            weapon_class@,
            weapon@,
            *attack,
        ),
{
    let a: i64 = innate_weapon_poise as i64;
    let b: i64 = hyper_armor_multiplier.ten_thousandths as i64;
    assert(-0x8000_0000_0000 <= a * b <= 0x8000_0000_0000) by (nonlinear_arith)
        requires
            0 <= a <= 0xffff,
            -0x8000_0000 <= b <= 0x7fff_ffff,
    ;
    let full = ScaledPoise { ten_thousandths: a * b };
    let none = ScaledPoise { ten_thousandths: 0 };
    if innate_weapon_poise > 77 {
        full
    } else if innate_weapon_poise >= 52 {
        if text_eq(weapon_class.as_str(), "Great Katana") {
            if text_eq(weapon.as_str(), "Rakshasa's Great Katana") {
                full
            } else {
                none
            }
        } else if text_eq(weapon_class.as_str(), "Hammer") {
            if attack.is_two_handed() || attack.is_heavy_class() {
                full
            } else {
                none
            }
        } else if attack.is_two_handed() {
            full
        } else {
            none
        }
    } else {
        none
    }
}

/// For a Great Katana of innate poise 52 to 77, only Rakshasa's Great Katana
/// has hyperarmour, and it has the full `poise × m` on every attack; every
/// other weapon of the class has none on any attack.
pub proof fn lemma_great_katana_hyperarmor(
    poise: u16,
    m: Multiplier,
    name: Seq<char>,
    attack: Attacks,
)
    requires
        52 <= poise <= 77,
    ensures
        name == "Rakshasa's Great Katana"@ ==> hyperarmor_units(
            poise,
            m,
            "Great Katana"@,
            name,
            attack,
        ) == poise as int * m.ten_thousandths as int,
        name != "Rakshasa's Great Katana"@ ==> hyperarmor_units(
            poise,
            m,
            "Great Katana"@,
            name,
            attack,
        ) == 0,
{
}

} // verus!
