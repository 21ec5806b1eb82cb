//! A weapon's attack repertoire and the lookup of one attack's damage in it.

use vstd::prelude::*;

use crate::attack::{Attacks, CriticalSize};
use crate::damage::{values_text, PoiseDamageValues};
use vstd::string::*;
use crate::multiplier::{scaled_sequence, Multiplier};

verus! {

/// Values that hold damage sequences and can be rescaled as a whole, giving
/// a new value and leaving the value it came from as it is.
pub trait ApplyMultiplier: Sized {
    /// Whether `self` is `orig` with every damage figure rescaled by `m`,
    /// every sequence keeping its length and place.
    spec fn scaling_of(&self, orig: &Self, m: Multiplier) -> bool;

    /// A copy with every damage figure rescaled by `multiplier`.
    fn apply_multiplier(&self, multiplier: Multiplier) -> (r: Self)
        ensures
            r.scaling_of(self, multiplier),
    ;
}

impl ApplyMultiplier for PoiseDamageValues {
    open spec fn scaling_of(&self, orig: &Self, m: Multiplier) -> bool {
        self.0@ == scaled_sequence(orig.0@, m)
    }

    fn apply_multiplier(&self, multiplier: Multiplier) -> (r: Self) {
        self.scaled(multiplier)
    }
}

/// The steps of a combo, at most six.
#[derive(Debug, Default, Clone)]
pub struct Chain {
    pub one: PoiseDamageValues,
    pub two: PoiseDamageValues,
    pub three: PoiseDamageValues,
    pub four: PoiseDamageValues,
    pub five: PoiseDamageValues,
    pub six: PoiseDamageValues,
}

/// The number of steps a chain has room for.
pub const CHAIN_STEPS: usize = 6;

/// A later step of a chain as written: nothing when empty, else the mark
/// and the figures.
pub open spec fn later_step_text(v: PoiseDamageValues) -> Seq<char> {
    if v.0@.len() == 0 {
        Seq::empty()
    } else {
        " \u{23f5} "@ + values_text(v.0@)
    }
}

/// The chain as written: the first step, then each later non-empty step
/// after a mark.
pub open spec fn chain_text(c: Chain) -> Seq<char> {
    values_text(c.one.0@) + later_step_text(c.two) + later_step_text(c.three) + later_step_text(
        c.four,
    ) + later_step_text(c.five) + later_step_text(c.six)
}

/// Appends a later step of a chain.
fn append_step(out: &mut String, v: &PoiseDamageValues)
    ensures
        final(out)@ == old(out)@ + later_step_text(*v),
{
    if v.0.len() > 0 {
        let text = v.to_text();
        out.append(" \u{23f5} ");
        out.append(text.as_str());
        assert(final(out)@ =~= old(out)@ + later_step_text(*v));
    } else {
        assert(old(out)@ + later_step_text(*v) =~= old(out)@);
    }
}

/// `Some(*r)` for `Some(r)`.
pub open spec fn deref_damage(o: Option<&PoiseDamageValues>) -> Option<PoiseDamageValues> {
    match o {
        Some(v) => Some(*v),
        None => None,
    }
}

impl Chain {
    /// The six steps, in order.
    pub open spec fn steps(self) -> Seq<PoiseDamageValues> {
        seq![self.one, self.two, self.three, self.four, self.five, self.six]
    }

    /// Step `n`, or nothing past the sixth.
    pub open spec fn step(self, n: int) -> Option<PoiseDamageValues> {
        if 0 <= n < CHAIN_STEPS {
            Some(self.steps()[n])
        } else {
            None
        }
    }

    /// The steps written out in order, each non-empty one after the first
    /// step marked by ` ⏵ ` (`40 ⏵ 50 + 10`).
    pub fn to_text(&self) -> (r: String)
        ensures
            r@ == chain_text(*self),
    {
        let mut out = self.one.to_text();
        append_step(&mut out, &self.two);
        append_step(&mut out, &self.three);
        append_step(&mut out, &self.four);
        append_step(&mut out, &self.five);
        append_step(&mut out, &self.six);
        out
    }

    /// Step `n`, counted from `0`; nothing for `n` of six or more.
    pub fn get(&self, n: usize) -> (r: Option<&PoiseDamageValues>)
        ensures
            deref_damage(r) == self.step(n as int),
    {
        match n {
            0 => Some(&self.one),
            1 => Some(&self.two),
            2 => Some(&self.three),
            3 => Some(&self.four),
            4 => Some(&self.five),
            5 => Some(&self.six),
            _ => None,
        }
    }
}

impl ApplyMultiplier for Chain {
    open spec fn scaling_of(&self, orig: &Self, m: Multiplier) -> bool {
        forall|i: int|
            0 <= i < CHAIN_STEPS ==> (#[trigger] self.steps()[i]).scaling_of(&orig.steps()[i], m)
    }

    fn apply_multiplier(&self, multiplier: Multiplier) -> (r: Self) {
        let r = Chain {
            one: self.one.apply_multiplier(multiplier),
            two: self.two.apply_multiplier(multiplier),
            three: self.three.apply_multiplier(multiplier),
            four: self.four.apply_multiplier(multiplier),
            five: self.five.apply_multiplier(multiplier),
            six: self.six.apply_multiplier(multiplier),
        };
        assert(forall|i: int|
            0 <= i < CHAIN_STEPS ==> (#[trigger] r.steps()[i]).scaling_of(&self.steps()[i], multiplier));
        r
    }
}

/// The light or the heavy attacks of one grip.
#[derive(Debug, Clone)]
pub struct Strength {
    pub chain: Chain,
    pub charged: Chain,
    pub running: PoiseDamageValues,
    pub rolling: PoiseDamageValues,
    pub backstep: PoiseDamageValues,
    pub jumping: PoiseDamageValues,
    pub guard_counter: PoiseDamageValues,
    pub feint: Chain,
}

impl ApplyMultiplier for Strength {
    open spec fn scaling_of(&self, orig: &Self, m: Multiplier) -> bool {
        &&& self.chain.scaling_of(&orig.chain, m)
        &&& self.charged.scaling_of(&orig.charged, m)
        &&& self.running.scaling_of(&orig.running, m)
        &&& self.rolling.scaling_of(&orig.rolling, m)
        &&& self.backstep.scaling_of(&orig.backstep, m)
        &&& self.jumping.scaling_of(&orig.jumping, m)
        &&& self.guard_counter.scaling_of(&orig.guard_counter, m)
        &&& self.feint.scaling_of(&orig.feint, m)
    }

    fn apply_multiplier(&self, multiplier: Multiplier) -> (r: Self) {
        Strength {
            chain: self.chain.apply_multiplier(multiplier),
            charged: self.charged.apply_multiplier(multiplier),
            running: self.running.apply_multiplier(multiplier),
            rolling: self.rolling.apply_multiplier(multiplier),
            backstep: self.backstep.apply_multiplier(multiplier),
            jumping: self.jumping.apply_multiplier(multiplier),
            guard_counter: self.guard_counter.apply_multiplier(multiplier),
            feint: self.feint.apply_multiplier(multiplier),
        }
    }
}

/// The light (`r1`) and heavy (`r2`) attacks of one grip.
#[derive(Debug, Clone)]
pub struct Grip {
    pub r1: Strength,
    pub r2: Strength,
}

impl ApplyMultiplier for Grip {
    open spec fn scaling_of(&self, orig: &Self, m: Multiplier) -> bool {
        self.r1.scaling_of(&orig.r1, m) && self.r2.scaling_of(&orig.r2, m)
    }

    fn apply_multiplier(&self, multiplier: Multiplier) -> (r: Self) {
        Grip { r1: self.r1.apply_multiplier(multiplier), r2: self.r2.apply_multiplier(multiplier) }
    }
}

/// Critical damage by the size of the target.
#[derive(Debug, Clone)]
pub struct Size {
    pub default: PoiseDamageValues,
    pub small: PoiseDamageValues,
    pub large: PoiseDamageValues,
}

impl Size {
    /// The damage against a target of size `s`.
    pub open spec fn of(self, s: CriticalSize) -> PoiseDamageValues {
        match s {
            CriticalSize::Default => self.default,
            CriticalSize::Small => self.small,
            CriticalSize::Large => self.large,
        }
    }
}

impl ApplyMultiplier for Size {
    open spec fn scaling_of(&self, orig: &Self, m: Multiplier) -> bool {
        &&& self.default.scaling_of(&orig.default, m)
        &&& self.small.scaling_of(&orig.small, m)
        &&& self.large.scaling_of(&orig.large, m)
    }

    fn apply_multiplier(&self, multiplier: Multiplier) -> (r: Self) {
        Size {
            default: self.default.apply_multiplier(multiplier),
            small: self.small.apply_multiplier(multiplier),
            large: self.large.apply_multiplier(multiplier),
        }
    }
}

/// The complete repertoire of one weapon.
#[derive(Debug, Clone)]
pub struct WeaponPoiseDamage {
    pub name: String,
    pub class: String,
    pub one_handed: Grip,
    pub two_handed: Grip,
    pub paired: Strength,
    pub offhand: Chain,
    pub riposte: Size,
    pub backstab: Size,
    pub shieldpoke: PoiseDamageValues,
    /// The multiplier that the figures carry; one as loaded.
    pub poise_damage_multiplier: Multiplier,
}

impl ApplyMultiplier for WeaponPoiseDamage {
    open spec fn scaling_of(&self, orig: &Self, m: Multiplier) -> bool {
        &&& self.name@ == orig.name@
        &&& self.class@ == orig.class@
        &&& self.one_handed.scaling_of(&orig.one_handed, m)
        &&& self.two_handed.scaling_of(&orig.two_handed, m)
        &&& self.paired.scaling_of(&orig.paired, m)
        &&& self.offhand.scaling_of(&orig.offhand, m)
        &&& self.riposte.scaling_of(&orig.riposte, m)
        &&& self.backstab.scaling_of(&orig.backstab, m)
        &&& self.shieldpoke.scaling_of(&orig.shieldpoke, m)
        &&& self.poise_damage_multiplier == m
    }

    fn apply_multiplier(&self, multiplier: Multiplier) -> (r: Self) {
        WeaponPoiseDamage {
            name: self.name.clone(),
            class: self.class.clone(),
            one_handed: self.one_handed.apply_multiplier(multiplier),
            two_handed: self.two_handed.apply_multiplier(multiplier),
            paired: self.paired.apply_multiplier(multiplier),
            offhand: self.offhand.apply_multiplier(multiplier),
            riposte: self.riposte.apply_multiplier(multiplier),
            backstab: self.backstab.apply_multiplier(multiplier),
            shieldpoke: self.shieldpoke.apply_multiplier(multiplier),
            poise_damage_multiplier: multiplier,
        }
    }
}

impl WeaponPoiseDamage {
    /// The damage sequence of `attack`, or nothing when the attack is none,
    /// or its step lies past the sixth.
    pub open spec fn damage(self, attack: Attacks) -> Option<PoiseDamageValues> {
        match attack {
            Attacks::NoAttack => None,
            Attacks::OneHandedR1Chain(n) => self.one_handed.r1.chain.step(n as int),
            Attacks::OneHandedR1Running => Some(self.one_handed.r1.running),
            Attacks::OneHandedR1Rolling => Some(self.one_handed.r1.rolling),
            Attacks::OneHandedR1Backstep => Some(self.one_handed.r1.backstep),
            Attacks::OneHandedR1Jumping => Some(self.one_handed.r1.jumping),
            Attacks::OneHandedR1GuardCounter => Some(self.one_handed.r1.guard_counter),
            Attacks::OneHandedR2Chain(n) => self.one_handed.r2.chain.step(n as int),
            Attacks::OneHandedR2Charged(n) => self.one_handed.r2.charged.step(n as int),
            Attacks::OneHandedR2Running => Some(self.one_handed.r2.running),
            Attacks::OneHandedR2Jumping => Some(self.one_handed.r2.jumping),
            Attacks::OneHandedR2Feint(n) => self.one_handed.r2.feint.step(n as int),
            Attacks::TwoHandedR1Chain(n) => self.two_handed.r1.chain.step(n as int),
            Attacks::TwoHandedR1Running => Some(self.two_handed.r1.running),
            Attacks::TwoHandedR1Rolling => Some(self.two_handed.r1.rolling),
            Attacks::TwoHandedR1Backstep => Some(self.two_handed.r1.backstep),
            Attacks::TwoHandedR1Jumping => Some(self.two_handed.r1.jumping),
            Attacks::TwoHandedR1GuardCounter => Some(self.two_handed.r1.guard_counter),
            Attacks::TwoHandedR2Chain(n) => self.two_handed.r2.chain.step(n as int),
            Attacks::TwoHandedR2Charged(n) => self.two_handed.r2.charged.step(n as int),
            Attacks::TwoHandedR2Running => Some(self.two_handed.r2.running),
            Attacks::TwoHandedR2Jumping => Some(self.two_handed.r2.jumping),
            Attacks::TwoHandedR2Feint(n) => self.two_handed.r2.feint.step(n as int),
            Attacks::PairedL1Chain(n) => self.paired.chain.step(n as int),
            Attacks::PairedL1Running => Some(self.paired.running),
            Attacks::PairedL1Rolling => Some(self.paired.rolling),
            Attacks::PairedL1Backstep => Some(self.paired.backstep),
            Attacks::PairedL1Jumping => Some(self.paired.jumping),
            Attacks::OffHandR1Chain(n) => self.offhand.step(n as int),
            Attacks::Backstab(size) => Some(self.backstab.of(size)),
            Attacks::Riposte(size) => Some(self.riposte.of(size)),
            Attacks::Shieldpoke => Some(self.shieldpoke),
        }
    }

    /// Looks up the damage sequence of `attack`.
    pub fn get_poise_damage_by_attack(&self, attack: &Attacks) -> (r: Option<&PoiseDamageValues>)
        ensures
            deref_damage(r) == self.damage(*attack),
    {
        match attack {
            Attacks::NoAttack => None,
            Attacks::OneHandedR1Chain(n) => self.one_handed.r1.chain.get(*n as usize),
            Attacks::OneHandedR1Running => Some(&self.one_handed.r1.running),
            Attacks::OneHandedR1Rolling => Some(&self.one_handed.r1.rolling),
            Attacks::OneHandedR1Backstep => Some(&self.one_handed.r1.backstep),
            Attacks::OneHandedR1Jumping => Some(&self.one_handed.r1.jumping),
            Attacks::OneHandedR1GuardCounter => Some(&self.one_handed.r1.guard_counter),
            Attacks::OneHandedR2Chain(n) => self.one_handed.r2.chain.get(*n as usize),
            Attacks::OneHandedR2Charged(n) => self.one_handed.r2.charged.get(*n as usize),
            Attacks::OneHandedR2Running => Some(&self.one_handed.r2.running),
            Attacks::OneHandedR2Jumping => Some(&self.one_handed.r2.jumping),
            Attacks::OneHandedR2Feint(n) => self.one_handed.r2.feint.get(*n as usize),
            Attacks::TwoHandedR1Chain(n) => self.two_handed.r1.chain.get(*n as usize),
            Attacks::TwoHandedR1Running => Some(&self.two_handed.r1.running),
            Attacks::TwoHandedR1Rolling => Some(&self.two_handed.r1.rolling),
            Attacks::TwoHandedR1Backstep => Some(&self.two_handed.r1.backstep),
            Attacks::TwoHandedR1Jumping => Some(&self.two_handed.r1.jumping),
            Attacks::TwoHandedR1GuardCounter => Some(&self.two_handed.r1.guard_counter),
            Attacks::TwoHandedR2Chain(n) => self.two_handed.r2.chain.get(*n as usize),
            Attacks::TwoHandedR2Charged(n) => self.two_handed.r2.charged.get(*n as usize),
            Attacks::TwoHandedR2Running => Some(&self.two_handed.r2.running),
            Attacks::TwoHandedR2Jumping => Some(&self.two_handed.r2.jumping),
            Attacks::TwoHandedR2Feint(n) => self.two_handed.r2.feint.get(*n as usize),
            Attacks::PairedL1Chain(n) => self.paired.chain.get(*n as usize),
            Attacks::PairedL1Running => Some(&self.paired.running),
            Attacks::PairedL1Rolling => Some(&self.paired.rolling),
            Attacks::PairedL1Backstep => Some(&self.paired.backstep),
            Attacks::PairedL1Jumping => Some(&self.paired.jumping),
            Attacks::OffHandR1Chain(n) => self.offhand.get(*n as usize),
            Attacks::Backstab(size) => match size {
                CriticalSize::Default => Some(&self.backstab.default),
                CriticalSize::Small => Some(&self.backstab.small),
                CriticalSize::Large => Some(&self.backstab.large),
            },
            Attacks::Riposte(size) => match size {
                CriticalSize::Default => Some(&self.riposte.default),
                CriticalSize::Small => Some(&self.riposte.small),
                CriticalSize::Large => Some(&self.riposte.large),
            },
            Attacks::Shieldpoke => Some(&self.shieldpoke),
        }
    }

    /// The damage sequence of `attack` with every figure rescaled by
    /// `multiplier`, or nothing where [`Self::get_poise_damage_by_attack`]
    /// finds nothing.
    pub fn get_poise_damage_by_attack_w_multiplier(
        &self,
        attack: &Attacks,
        multiplier: Multiplier,
    ) -> (r: Option<PoiseDamageValues>)
        ensures
            r is Some <==> self.damage(*attack) is Some,
            r is Some ==> r->Some_0.0@ == scaled_sequence(self.damage(*attack)->Some_0.0@, multiplier),
    {
        match self.get_poise_damage_by_attack(attack) {
            Some(v) => Some(v.scaled(multiplier)),
            None => None,
        }
    }
}

/// Rescaling a weapon and then looking up an attack gives what looking the
/// attack up and rescaling its sequence gives: the same attacks are found,
/// every sequence keeps its length, and each figure is rescaled.
pub proof fn lemma_scaled_lookup(
    orig: WeaponPoiseDamage,
    scaled: WeaponPoiseDamage,
    m: Multiplier,
    attack: Attacks,
)
    requires
        scaled.scaling_of(&orig, m),
    ensures
        scaled.damage(attack) is Some <==> orig.damage(attack) is Some,
        scaled.damage(attack) is Some ==> scaled.damage(attack)->Some_0.0@ == scaled_sequence(
            orig.damage(attack)->Some_0.0@,
            m,
        ),
        scaled.damage(attack) is Some ==> scaled.damage(attack)->Some_0.0@.len() == orig.damage(
            attack,
        )->Some_0.0@.len(),
{
    match attack {
        Attacks::OneHandedR1Chain(n) => {
            if (n as int) < CHAIN_STEPS {
                assert(scaled.one_handed.r1.chain.steps()[n as int].scaling_of(
                    &orig.one_handed.r1.chain.steps()[n as int],
                    m,
                ));
            }
        },
        Attacks::OneHandedR2Chain(n) => {
            if (n as int) < CHAIN_STEPS {
                assert(scaled.one_handed.r2.chain.steps()[n as int].scaling_of(
                    &orig.one_handed.r2.chain.steps()[n as int],
                    m,
                ));
            }
        },
        Attacks::OneHandedR2Charged(n) => {
            if (n as int) < CHAIN_STEPS {
                assert(scaled.one_handed.r2.charged.steps()[n as int].scaling_of(
                    &orig.one_handed.r2.charged.steps()[n as int],
                    m,
                ));
            }
        },
        Attacks::OneHandedR2Feint(n) => {
            if (n as int) < CHAIN_STEPS {
                assert(scaled.one_handed.r2.feint.steps()[n as int].scaling_of(
                    &orig.one_handed.r2.feint.steps()[n as int],
                    m,
                ));
            }
        },
        Attacks::TwoHandedR1Chain(n) => {
            if (n as int) < CHAIN_STEPS {
                assert(scaled.two_handed.r1.chain.steps()[n as int].scaling_of(
                    &orig.two_handed.r1.chain.steps()[n as int],
                    m,
                ));
            }
        },
        Attacks::TwoHandedR2Chain(n) => {
            if (n as int) < CHAIN_STEPS {
                assert(scaled.two_handed.r2.chain.steps()[n as int].scaling_of(
                    &orig.two_handed.r2.chain.steps()[n as int],
                    m,
                ));
            }
        },
        Attacks::TwoHandedR2Charged(n) => {
            if (n as int) < CHAIN_STEPS {
                assert(scaled.two_handed.r2.charged.steps()[n as int].scaling_of(
                    &orig.two_handed.r2.charged.steps()[n as int],
                    m,
                ));
            }
        },
        Attacks::TwoHandedR2Feint(n) => {
            if (n as int) < CHAIN_STEPS {
                assert(scaled.two_handed.r2.feint.steps()[n as int].scaling_of(
                    &orig.two_handed.r2.feint.steps()[n as int],
                    m,
                ));
            }
        },
        Attacks::PairedL1Chain(n) => {
            if (n as int) < CHAIN_STEPS {
                assert(scaled.paired.chain.steps()[n as int].scaling_of(
                    &orig.paired.chain.steps()[n as int],
                    m,
                ));
            }
        },
        Attacks::OffHandR1Chain(n) => {
            if (n as int) < CHAIN_STEPS {
                assert(scaled.offhand.steps()[n as int].scaling_of(&orig.offhand.steps()[n as int], m));
            }
        },
        _ => {},
    }
}

/// Rescaling by a factor of one leaves the sequence of every attack as it was.
pub proof fn lemma_unit_multiplier_keeps_moveset(
    orig: WeaponPoiseDamage,
    scaled: WeaponPoiseDamage,
    m: Multiplier,
    attack: Attacks,
)
    requires
        scaled.scaling_of(&orig, m),
        m.ten_thousandths == crate::multiplier::MULTIPLIER_SCALE,
    ensures
        scaled.damage(attack) is Some <==> orig.damage(attack) is Some,
        scaled.damage(attack) is Some ==> scaled.damage(attack)->Some_0.0@ == orig.damage(
            attack,
        )->Some_0.0@,
{
    lemma_scaled_lookup(orig, scaled, m, attack);
    if orig.damage(attack) is Some {
        crate::multiplier::lemma_unit_multiplier_keeps_sequence(orig.damage(attack)->Some_0.0@, m);
    }
}

/// Every chain step past the sixth is absent, for every weapon.
pub proof fn lemma_steps_past_sixth_absent(w: WeaponPoiseDamage, n: u8)
    requires
        n as int >= CHAIN_STEPS,
    ensures
        w.damage(Attacks::OneHandedR1Chain(n)) is None,
        w.damage(Attacks::OneHandedR2Chain(n)) is None,
        w.damage(Attacks::OneHandedR2Charged(n)) is None,
        w.damage(Attacks::OneHandedR2Feint(n)) is None,
        w.damage(Attacks::TwoHandedR1Chain(n)) is None,
        w.damage(Attacks::TwoHandedR2Chain(n)) is None,
        w.damage(Attacks::TwoHandedR2Charged(n)) is None,
        w.damage(Attacks::TwoHandedR2Feint(n)) is None,
        w.damage(Attacks::PairedL1Chain(n)) is None,
        w.damage(Attacks::OffHandR1Chain(n)) is None,
{
}

} // verus!
