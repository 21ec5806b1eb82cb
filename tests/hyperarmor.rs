use convert_case::{Case, Casing};
use hyperarmor_inspector::attack::{Attacks, CriticalSize};
use hyperarmor_inspector::label::join_grip_marks;
use hyperarmor_inspector::hyperarmor::weapon_hyperarmor_from_weapon_and_attack;
use hyperarmor_inspector::multiplier::Multiplier;

fn all_attacks() -> Vec<Attacks> {
    let mut v = vec![
        Attacks::NoAttack,
        Attacks::OneHandedR1Running,
        Attacks::OneHandedR1Rolling,
        Attacks::OneHandedR1Backstep,
        Attacks::OneHandedR1Jumping,
        Attacks::OneHandedR1GuardCounter,
        Attacks::OneHandedR2Running,
        Attacks::OneHandedR2Jumping,
        Attacks::TwoHandedR1Running,
        Attacks::TwoHandedR1Rolling,
        Attacks::TwoHandedR1Backstep,
        Attacks::TwoHandedR1Jumping,
        Attacks::TwoHandedR1GuardCounter,
        Attacks::TwoHandedR2Running,
        Attacks::TwoHandedR2Jumping,
        Attacks::PairedL1Running,
        Attacks::PairedL1Rolling,
        Attacks::PairedL1Backstep,
        Attacks::PairedL1Jumping,
        Attacks::Shieldpoke,
    ];
    for n in 0..6u8 {
        v.push(Attacks::OneHandedR1Chain(n));
        v.push(Attacks::OneHandedR2Chain(n));
        v.push(Attacks::OneHandedR2Charged(n));
        v.push(Attacks::OneHandedR2Feint(n));
        v.push(Attacks::TwoHandedR1Chain(n));
        v.push(Attacks::TwoHandedR2Chain(n));
        v.push(Attacks::TwoHandedR2Charged(n));
        v.push(Attacks::TwoHandedR2Feint(n));
        v.push(Attacks::PairedL1Chain(n));
        v.push(Attacks::OffHandR1Chain(n));
    }
    for size in [CriticalSize::Default, CriticalSize::Small, CriticalSize::Large] {
        v.push(Attacks::Backstab(size));
        v.push(Attacks::Riposte(size));
    }
    v
}

#[test]
fn test_weapon_hyperarmor_from_weapon_and_attack() {
    let weapon = "Dagger".to_string();
    let weapon_class = "Dagger".to_string();
    let innate_weapon_poise = 11;
    let hyper_armor_multiplier = Multiplier::from_ten_thousandths((0.75f64 * 10000.0) as i32);
    let attack = Attacks::TwoHandedR1Running;
    let weapon_hyperarmor = weapon_hyperarmor_from_weapon_and_attack(
        innate_weapon_poise,
        hyper_armor_multiplier,
        &weapon_class,
        &weapon,
        &attack,
    );
    assert_eq!(weapon_hyperarmor.whole() as u16, 0);

    let weapon = "Claymore".to_string();
    let weapon_class = "Greatsword".to_string();
    let innate_weapon_poise = 52;
    let hyper_armor_multiplier = Multiplier::from_ten_thousandths((0.75f64 * 10000.0) as i32);
    let attack = Attacks::TwoHandedR1Running;
    let weapon_hyperarmor = weapon_hyperarmor_from_weapon_and_attack(
        innate_weapon_poise,
        hyper_armor_multiplier,
        &weapon_class,
        &weapon,
        &attack,
    );
    assert_eq!(weapon_hyperarmor.whole() as u16, 39);
}

#[test]
fn hyperarmor_is_exact() {
    let r = weapon_hyperarmor_from_weapon_and_attack(
        52,
        Multiplier::from_ten_thousandths(7500),
        &"Greatsword".to_string(),
        &"Claymore".to_string(),
        &Attacks::TwoHandedR1Running,
    );
    assert_eq!(r.ten_thousandths, 390_000);
}

#[test]
fn great_katana_only_rakshasa() {
    let class = "Great Katana".to_string();
    let rakshasa = "Rakshasa's Great Katana".to_string();
    let other = "Dragon-Hunter's Great Katana".to_string();
    for poise in [52u16, 60, 77] {
        for attack in all_attacks() {
            let m = attack.get_hyper_armour_multiplier();
            let r = weapon_hyperarmor_from_weapon_and_attack(poise, m, &class, &rakshasa, &attack);
            assert_eq!(r.ten_thousandths, poise as i64 * m.ten_thousandths as i64);
            let o = weapon_hyperarmor_from_weapon_and_attack(poise, m, &class, &other, &attack);
            assert_eq!(o.ten_thousandths, 0);
        }
    }
}

#[test]
fn hammer_counts_heavy_swings() {
    let class = "Hammer".to_string();
    let name = "Mace".to_string();
    let m = Multiplier::one();
    let heavy = weapon_hyperarmor_from_weapon_and_attack(52, m, &class, &name, &Attacks::OneHandedR2Chain(0));
    assert_eq!(heavy.whole(), 52);
    let light = weapon_hyperarmor_from_weapon_and_attack(52, m, &class, &name, &Attacks::OneHandedR1Chain(0));
    assert_eq!(light.whole(), 0);
    let two = weapon_hyperarmor_from_weapon_and_attack(52, m, &class, &name, &Attacks::TwoHandedR1Chain(0));
    assert_eq!(two.whole(), 52);
}

#[test]
fn other_mid_classes_need_two_hands() {
    let class = "Halberd".to_string();
    let name = "Lucerne".to_string();
    let m = Multiplier::one();
    let heavy = weapon_hyperarmor_from_weapon_and_attack(52, m, &class, &name, &Attacks::OneHandedR2Chain(0));
    assert_eq!(heavy.whole(), 0);
    let two = weapon_hyperarmor_from_weapon_and_attack(77, m, &class, &name, &Attacks::TwoHandedR2Chain(1));
    assert_eq!(two.whole(), 77);
}

#[test]
fn high_poise_always_counts() {
    let class = "Colossal Weapon".to_string();
    let name = "Giant-Crusher".to_string();
    let r = weapon_hyperarmor_from_weapon_and_attack(
        99,
        Attacks::OneHandedR2Charged(0).get_hyper_armour_multiplier(),
        &class,
        &name,
        &Attacks::OneHandedR2Charged(0),
    );
    assert_eq!(r.whole(), 198);
    let negative = weapon_hyperarmor_from_weapon_and_attack(
        90,
        Multiplier::from_ten_thousandths(-10000),
        &class,
        &name,
        &Attacks::OneHandedR1Chain(0),
    );
    assert_eq!(negative.whole(), -90);
    let low = weapon_hyperarmor_from_weapon_and_attack(51, Multiplier::one(), &class, &name, &Attacks::TwoHandedR1Chain(0));
    assert_eq!(low.whole(), 0);
}

#[test]
fn multiplier_table() {
    assert_eq!(Attacks::NoAttack.get_hyper_armour_multiplier().ten_thousandths, 0);
    assert_eq!(Attacks::OneHandedR1Chain(0).get_hyper_armour_multiplier().ten_thousandths, 10000);
    assert_eq!(Attacks::TwoHandedR1Rolling.get_hyper_armour_multiplier().ten_thousandths, 7500);
    assert_eq!(Attacks::OneHandedR1GuardCounter.get_hyper_armour_multiplier().ten_thousandths, 5000);
    assert_eq!(Attacks::TwoHandedR2Charged(1).get_hyper_armour_multiplier().ten_thousandths, 20000);
    assert_eq!(Attacks::Riposte(CriticalSize::Large).get_hyper_armour_multiplier().ten_thousandths, 10000);
    for attack in all_attacks() {
        let m = attack.get_hyper_armour_multiplier().ten_thousandths;
        assert!([0, 5000, 7500, 10000, 20000].contains(&m));
    }
}

#[test]
fn structural_predicates_match_labels() {
    for attack in all_attacks() {
        let label = attack.label();
        let debug = match attack {
            Attacks::NoAttack => "None".to_string(),
            other => format!("{:?}", other),
        };
        let expected = debug
            .as_str()
            .to_case(Case::Title)
            .replace("R 1", "R1")
            .replace("R 2", "R2")
            .replace("L 1", "L1");
        assert_eq!(label, expected);
        assert_eq!(label.contains("Two Handed"), attack.is_two_handed(), "{}", label);
        assert_eq!(label.contains("R2"), attack.is_heavy_class(), "{}", label);
    }
}

#[test]
fn labels_are_title_case() {
    assert_eq!(Attacks::TwoHandedR1Running.label(), "Two Handed R1 Running");
    assert_eq!(Attacks::OneHandedR2Charged(1).variant_name(), "OneHandedR2Charged(1)");
    assert_eq!(Attacks::Riposte(CriticalSize::Small).variant_name(), "Riposte(Small)");
    assert_eq!(Attacks::PairedL1Chain(123).variant_name(), "PairedL1Chain(123)");
}

#[test]
fn grip_marks_are_joined() {
    assert_eq!(join_grip_marks("One Handed R 1 Chain"), "One Handed R1 Chain");
    assert_eq!(join_grip_marks("Paired L 1 R 2 R 2"), "Paired L1 R2 R2");
    assert_eq!(join_grip_marks("R 3"), "R 3");
}

#[test]
fn sentinel_label_reads_none() {
    assert_eq!(Attacks::NoAttack.label(), "None");
    assert_eq!(Attacks::NoAttack.variant_name(), "None");
}
