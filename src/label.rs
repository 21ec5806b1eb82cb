//! Human-readable names of attack categories, for display only: no rule of
//! the library reads them.

use vstd::prelude::*;
use vstd::string::*;

use convert_case::Casing;

use crate::attack::{Attacks, CriticalSize};
use crate::text::{decimal_text, push_decimal, text_eq};

verus! {

/// The title-case form that the convert_case crate gives `s`.
pub uninterp spec fn title_case_of(s: Seq<char>) -> Seq<char>;

/// Relies on `convert_case::Casing::to_case` with `Case::Title`: words split
/// at case changes, letter-digit changes, spaces, hyphens and underscores,
/// each capitalised and joined by single spaces. The result depends on the
/// text alone.
#[verifier::external_body]
fn title_case(s: &str) -> (r: String)
    ensures
        r@ == title_case_of(s@),
{
    s.to_case(convert_case::Case::Title)
}

/// `s` with every occurrence of `from`, read left to right without overlap,
/// replaced by `to`.
pub open spec fn replaced(s: Seq<char>, from: Seq<char>, to: Seq<char>) -> Seq<char>
    decreases s.len(),
{
    if from.len() == 0 || s.len() < from.len() {
        s
    } else if s.take(from.len() as int) == from {
        to + replaced(s.skip(from.len() as int), from, to)
    } else {
        seq![s[0]] + replaced(s.drop_first(), from, to)
    }
}

/// A title with the grip marks joined again: `R 1` as `R1`, `R 2` as `R2`,
/// `L 1` as `L1`.
pub open spec fn grip_marks_joined(title: Seq<char>) -> Seq<char> {
    replaced(replaced(replaced(title, "R 1"@, "R1"@), "R 2"@, "R2"@), "L 1"@, "L1"@)
}

/// The name of a target size.
pub open spec fn size_text(s: CriticalSize) -> Seq<char> {
    match s {
        CriticalSize::Default => "Default"@,
        CriticalSize::Small => "Small"@,
        CriticalSize::Large => "Large"@,
    }
}

/// `name(n)`.
pub open spec fn indexed(name: Seq<char>, n: u8) -> Seq<char> {
    name + "("@ + decimal_text(n as nat) + ")"@
}

/// `name(size)`.
pub open spec fn sized(name: Seq<char>, s: CriticalSize) -> Seq<char> {
    name + "("@ + size_text(s) + ")"@
}

/// The name of the variant with its argument in parentheses, as Rust writes
/// the value: `OneHandedR1Chain(3)`, `Backstab(Small)`, `Shieldpoke`; the
/// sentinel for no attack reads `None`.
pub open spec fn variant_text(a: Attacks) -> Seq<char> {
    match a {
        Attacks::NoAttack => "None"@,
        Attacks::OneHandedR1Chain(n) => indexed("OneHandedR1Chain"@, n),
        Attacks::OneHandedR1Running => "OneHandedR1Running"@,
        Attacks::OneHandedR1Rolling => "OneHandedR1Rolling"@,
        Attacks::OneHandedR1Backstep => "OneHandedR1Backstep"@,
        Attacks::OneHandedR1Jumping => "OneHandedR1Jumping"@,
        Attacks::OneHandedR1GuardCounter => "OneHandedR1GuardCounter"@,
        Attacks::OneHandedR2Chain(n) => indexed("OneHandedR2Chain"@, n),
        Attacks::OneHandedR2Charged(n) => indexed("OneHandedR2Charged"@, n),
        Attacks::OneHandedR2Running => "OneHandedR2Running"@,
        Attacks::OneHandedR2Jumping => "OneHandedR2Jumping"@,
        Attacks::OneHandedR2Feint(n) => indexed("OneHandedR2Feint"@, n),
        Attacks::TwoHandedR1Chain(n) => indexed("TwoHandedR1Chain"@, n),
        Attacks::TwoHandedR1Running => "TwoHandedR1Running"@,
        Attacks::TwoHandedR1Rolling => "TwoHandedR1Rolling"@,
        Attacks::TwoHandedR1Backstep => "TwoHandedR1Backstep"@,
        Attacks::TwoHandedR1Jumping => "TwoHandedR1Jumping"@,
        Attacks::TwoHandedR1GuardCounter => "TwoHandedR1GuardCounter"@,
        Attacks::TwoHandedR2Chain(n) => indexed("TwoHandedR2Chain"@, n),
        Attacks::TwoHandedR2Charged(n) => indexed("TwoHandedR2Charged"@, n),
        Attacks::TwoHandedR2Running => "TwoHandedR2Running"@,
        Attacks::TwoHandedR2Jumping => "TwoHandedR2Jumping"@,
        Attacks::TwoHandedR2Feint(n) => indexed("TwoHandedR2Feint"@, n),
        Attacks::PairedL1Chain(n) => indexed("PairedL1Chain"@, n),
        Attacks::PairedL1Running => "PairedL1Running"@,
        Attacks::PairedL1Rolling => "PairedL1Rolling"@,
        Attacks::PairedL1Backstep => "PairedL1Backstep"@,
        Attacks::PairedL1Jumping => "PairedL1Jumping"@,
        Attacks::OffHandR1Chain(n) => indexed("OffHandR1Chain"@, n),
        Attacks::Backstab(s) => sized("Backstab"@, s),
        Attacks::Riposte(s) => sized("Riposte"@, s),
        Attacks::Shieldpoke => "Shieldpoke"@,
    }
}

/// `name(n)`.
fn indexed_text(name: &str, n: u8) -> (r: String)
    ensures
        r@ == indexed(name@, n),
{
    let mut out = String::from_str(name);
    out.append("(");
    push_decimal(&mut out, n as u16);
    out.append(")");
    out
}

/// The name of a target size.
fn size_name(s: CriticalSize) -> (r: &'static str)
    ensures
        r@ == size_text(s),
{
    match s {
        CriticalSize::Default => "Default",
        CriticalSize::Small => "Small",
        CriticalSize::Large => "Large",
    }
}

/// `name(size)`.
fn sized_text(name: &str, s: CriticalSize) -> (r: String)
    ensures
        r@ == sized(name@, s),
{
    let mut out = String::from_str(name);
    out.append("(");
    out.append(size_name(s));
    out.append(")");
    out
}

impl Attacks {
    /// The variant as Rust writes it, see [`variant_text`].
    pub fn variant_name(&self) -> (r: String)
        ensures
            r@ == variant_text(*self),
    {
        match *self {
            Attacks::NoAttack => String::from_str("None"),
            Attacks::OneHandedR1Chain(n) => indexed_text("OneHandedR1Chain", n),
            Attacks::OneHandedR1Running => String::from_str("OneHandedR1Running"),
            Attacks::OneHandedR1Rolling => String::from_str("OneHandedR1Rolling"),
            Attacks::OneHandedR1Backstep => String::from_str("OneHandedR1Backstep"),
            Attacks::OneHandedR1Jumping => String::from_str("OneHandedR1Jumping"),
            Attacks::OneHandedR1GuardCounter => String::from_str("OneHandedR1GuardCounter"),
            Attacks::OneHandedR2Chain(n) => indexed_text("OneHandedR2Chain", n),
            Attacks::OneHandedR2Charged(n) => indexed_text("OneHandedR2Charged", n),
            Attacks::OneHandedR2Running => String::from_str("OneHandedR2Running"),
            Attacks::OneHandedR2Jumping => String::from_str("OneHandedR2Jumping"),
            Attacks::OneHandedR2Feint(n) => indexed_text("OneHandedR2Feint", n),
            Attacks::TwoHandedR1Chain(n) => indexed_text("TwoHandedR1Chain", n),
            Attacks::TwoHandedR1Running => String::from_str("TwoHandedR1Running"),
            Attacks::TwoHandedR1Rolling => String::from_str("TwoHandedR1Rolling"),
            Attacks::TwoHandedR1Backstep => String::from_str("TwoHandedR1Backstep"),
            Attacks::TwoHandedR1Jumping => String::from_str("TwoHandedR1Jumping"),
            Attacks::TwoHandedR1GuardCounter => String::from_str("TwoHandedR1GuardCounter"),
            Attacks::TwoHandedR2Chain(n) => indexed_text("TwoHandedR2Chain", n),
            Attacks::TwoHandedR2Charged(n) => indexed_text("TwoHandedR2Charged", n),
            Attacks::TwoHandedR2Running => String::from_str("TwoHandedR2Running"),
            Attacks::TwoHandedR2Jumping => String::from_str("TwoHandedR2Jumping"),
            Attacks::TwoHandedR2Feint(n) => indexed_text("TwoHandedR2Feint", n),
            Attacks::PairedL1Chain(n) => indexed_text("PairedL1Chain", n),
            Attacks::PairedL1Running => String::from_str("PairedL1Running"),
            Attacks::PairedL1Rolling => String::from_str("PairedL1Rolling"),
            Attacks::PairedL1Backstep => String::from_str("PairedL1Backstep"),
            Attacks::PairedL1Jumping => String::from_str("PairedL1Jumping"),
            Attacks::OffHandR1Chain(n) => indexed_text("OffHandR1Chain", n),
            Attacks::Backstab(s) => sized_text("Backstab", s),
            Attacks::Riposte(s) => sized_text("Riposte", s),
            Attacks::Shieldpoke => String::from_str("Shieldpoke"),
        }
    }

    /// The label shown for the attack: the variant name in title case, with
    /// the grip marks kept whole (`One Handed R1 Chain(3)`).
    pub fn label(&self) -> (r: String)
        ensures
            r@ == grip_marks_joined(title_case_of(variant_text(*self))),
    {
        let name = self.variant_name();
        let title = title_case(name.as_str());
        join_grip_marks(title.as_str())
    }
}

/// Replaces every `from` in `s` by `to`.
fn replace_all(s: &str, from: &str, to: &str) -> (r: String)
    ensures
        r@ == replaced(s@, from@, to@),
{
    let n = s.unicode_len();
    let k = from.unicode_len();
    if k == 0 {
        return String::from_str(s);
    }
    let mut out = String::new();
    let mut i: usize = 0;
    assert(s@.skip(0) =~= s@);
    while i < n
        invariant
            n == s@.len(),
            k == from@.len(),
            k > 0,
            i <= n,
            replaced(s@, from@, to@) == out@ + replaced(s@.skip(i as int), from@, to@),
        decreases n - i,
    {
        let ghost rest = s@.skip(i as int);
        if n - i >= k && text_eq(s.substring_char(i, i + k), from) {
            assert(rest.take(k as int) =~= s@.subrange(i as int, i + k as int));
            assert(rest.skip(k as int) =~= s@.skip(i + k as int));
            let ghost before = out@;
            out.append(to);
            assert(before + (to@ + replaced(s@.skip(i + k as int), from@, to@)) =~= out@ + replaced(
                s@.skip(i + k as int),
                from@,
                to@,
            ));
            i = i + k;
        } else {
            if n - i >= k {
                assert(rest.take(k as int) =~= s@.subrange(i as int, i + k as int));
            }
            assert(rest.drop_first() =~= s@.skip(i + 1 as int));
            let c = s.substring_char(i, i + 1);
            assert(c@ =~= seq![rest[0]]);
            let ghost before = out@;
            out.append(c);
            assert(before + (seq![rest[0]] + replaced(s@.skip(i + 1 as int), from@, to@)) =~= out@
                + replaced(s@.skip(i + 1 as int), from@, to@));
            i = i + 1;
        }
    }
    assert(s@.skip(n as int) =~= Seq::<char>::empty());
    assert(out@ + Seq::<char>::empty() =~= out@);
    out
}

/// Joins the grip marks of a title, see [`grip_marks_joined`].
pub fn join_grip_marks(title: &str) -> (r: String)
    ensures
        r@ == grip_marks_joined(title@),
{
    let a = replace_all(title, "R 1", "R1");
    let b = replace_all(a.as_str(), "R 2", "R2");
    replace_all(b.as_str(), "L 1", "L1")
}

} // verus!
