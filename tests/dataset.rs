use hyperarmor_inspector::attack::{Attacks, CriticalSize};
use hyperarmor_inspector::damage::PoiseDamageValues;
use hyperarmor_inspector::loader::{
    load_data, load_records, moveset_from_row, read_records, LoadError, ROW_COLUMNS,
};
use hyperarmor_inspector::moveset::{ApplyMultiplier, WeaponPoiseDamage};
use hyperarmor_inspector::multiplier::{Multiplier, PoiseDamage, POISE_DAMAGE_MULTIPLIER};
use hyperarmor_inspector::store::{innate_poise_overrides, PoiseData, StoreError};

fn row(class: &str, name: &str) -> Vec<String> {
    let mut r = vec![String::new(); ROW_COLUMNS];
    r[0] = class.to_string();
    r[1] = name.to_string();
    r
}

fn weapon(class: &str, name: &str) -> WeaponPoiseDamage {
    moveset_from_row(&row(class, name), 0).unwrap().unwrap()
}

fn v(x: &[PoiseDamage]) -> PoiseDamageValues {
    PoiseDamageValues(x.to_vec())
}

fn full_dataset() -> Vec<WeaponPoiseDamage> {
    let mut ws = Vec::new();
    for (key, _) in innate_poise_overrides() {
        ws.push(weapon(key, &format!("{} Example", key)));
    }
    ws
}

fn header() -> String {
    (0..ROW_COLUMNS).map(|i| format!("c{}", i)).collect::<Vec<_>>().join(",")
}

#[test]
fn test() {
    let mut cells = vec![String::new(); ROW_COLUMNS];
    cells[0] = "Dagger".to_string();
    cells[1] = "Dagger".to_string();
    cells[2] = "40".to_string();
    let text = format!("{}\n{}\n", header(), cells.join(","));
    let data = load_data(&text).unwrap();
    let dagger = data.iter().find(|w| w.name == "Dagger").unwrap();
    assert_eq!(dagger.one_handed.r1.chain.one, vec![40].into());
    assert_eq!(dagger.paired.chain.five, Vec::<PoiseDamage>::new().into());
}

#[test]
fn values_from_text_and_vec() {
    let a = PoiseDamageValues::from_cell("302.5 + 605");
    let b: PoiseDamageValues = vec![302, 605].into();
    assert_eq!(a, b);
}

#[test]
fn end_to_end_dagger_lookup() {
    let mut r = row("Dagger", "Dagger");
    r[2] = "40".to_string();
    let loaded = load_records(&vec![r]).unwrap();
    let mut input = full_dataset();
    input.extend(loaded);
    let data = PoiseData::new(input).unwrap();
    assert_eq!(data.damage_for("Dagger", &Attacks::OneHandedR1Chain(0)), Some(&v(&[40])));
    assert_eq!(data.damage_for("Dagger", &Attacks::OneHandedR1Chain(6)), None);
    assert_eq!(data.damage_for("Nothing", &Attacks::OneHandedR1Chain(0)), None);
}

#[test]
fn every_column_lands_in_its_field() {
    let mut r = row("Greatsword", "Claymore");
    for (i, cell) in r.iter_mut().enumerate().skip(2) {
        *cell = format!("{}", i);
    }
    let w = moveset_from_row(&r, 3).unwrap().unwrap();
    assert_eq!(w.one_handed.r1.chain.one, v(&[2]));
    assert_eq!(w.one_handed.r1.chain.six, v(&[7]));
    assert_eq!(w.one_handed.r2.chain.two, v(&[9]));
    assert_eq!(w.one_handed.r2.chain.three, v(&[]));
    assert_eq!(w.one_handed.r2.charged.one, v(&[10]));
    assert_eq!(w.one_handed.r1.running, v(&[12]));
    assert_eq!(w.one_handed.r2.running, v(&[13]));
    assert_eq!(w.one_handed.r1.guard_counter, v(&[18]));
    assert_eq!(w.one_handed.r2.rolling, v(&[]));
    assert_eq!(w.two_handed.r1.chain.one, v(&[19]));
    assert_eq!(w.two_handed.r2.charged.two, v(&[28]));
    assert_eq!(w.two_handed.r1.guard_counter, v(&[35]));
    assert_eq!(w.offhand.six, v(&[41]));
    assert_eq!(w.backstab.default, v(&[43]));
    assert_eq!(w.riposte.default, v(&[44]));
    assert_eq!(w.backstab.small, v(&[45]));
    assert_eq!(w.riposte.small, v(&[46]));
    assert_eq!(w.backstab.large, v(&[]));
    assert_eq!(w.riposte.large, v(&[47]));
    assert_eq!(w.shieldpoke, v(&[48]));
    assert_eq!(w.one_handed.r2.feint.two, v(&[50]));
    assert_eq!(w.two_handed.r2.feint.one, v(&[51]));
    assert_eq!(w.paired.chain.one, v(&[53]));
    assert_eq!(w.paired.jumping, v(&[62]));
    assert_eq!(w.paired.guard_counter, v(&[]));
    assert_eq!(w.poise_damage_multiplier, Multiplier::one());
}

#[test]
fn blank_rows_are_skipped() {
    assert!(matches!(moveset_from_row(&row("", "Dagger"), 0), Ok(None)));
    assert!(matches!(moveset_from_row(&row("Dagger", ""), 0), Ok(None)));
    assert!(matches!(moveset_from_row(&vec!["Dagger".to_string()], 0), Ok(None)));
    let ws = load_records(&vec![row("", ""), row("Dagger", "Dagger")]).unwrap();
    assert_eq!(ws.len(), 1);
}

#[test]
fn short_row_is_an_error() {
    let short = vec!["Dagger".to_string(), "Dagger".to_string(), "40".to_string()];
    let r = load_records(&vec![row("Dagger", "Parrying Dagger"), short]);
    assert!(matches!(r, Err(LoadError::ShortRow { record: 1, columns: 3 })));
}

#[test]
fn malformed_text_is_an_error() {
    let text = format!("{}\na,b\n", header());
    assert!(matches!(load_data(&text), Err(LoadError::Csv(_))));
}

#[test]
fn load_data_reads_quoted_cells() {
    let mut cells = vec![String::new(); ROW_COLUMNS];
    cells[0] = "Katana".to_string();
    cells[1] = "Uchigatana".to_string();
    cells[2] = "\"25 + 25\"".to_string();
    let text = format!("{}\n{}\n", header(), cells.join(","));
    let data = load_data(&text).unwrap();
    assert_eq!(data.len(), 1);
    assert_eq!(data[0].name, "Uchigatana");
    assert_eq!(data[0].class, "Katana");
    assert_eq!(data[0].one_handed.r1.chain.one, v(&[25, 25]));
}

#[test]
fn chain_steps_beyond_six_are_absent() {
    let w = weapon("Dagger", "Dagger");
    assert!(w.one_handed.r1.chain.get(5).is_some());
    assert!(w.one_handed.r1.chain.get(6).is_none());
    for n in 6..=255u8 {
        assert!(w.get_poise_damage_by_attack(&Attacks::OneHandedR1Chain(n)).is_none());
        assert!(w.get_poise_damage_by_attack(&Attacks::TwoHandedR2Charged(n)).is_none());
        assert!(w.get_poise_damage_by_attack(&Attacks::PairedL1Chain(n)).is_none());
        assert!(w.get_poise_damage_by_attack(&Attacks::OffHandR1Chain(n)).is_none());
    }
    assert!(w.get_poise_damage_by_attack(&Attacks::NoAttack).is_none());
    assert!(w.get_poise_damage_by_attack(&Attacks::Backstab(CriticalSize::Large)).is_some());
}

#[test]
fn multiplier_rescales_and_truncates() {
    let mut r = row("Greatsword", "Claymore");
    r[2] = "100 + 7".to_string();
    r[48] = "33".to_string();
    let w = moveset_from_row(&r, 0).unwrap().unwrap();
    let m = Multiplier::from_ten_thousandths(POISE_DAMAGE_MULTIPLIER);
    let scaled = w.apply_multiplier(m);
    assert_eq!(scaled.one_handed.r1.chain.one, v(&[81, 5]));
    assert_eq!(scaled.shieldpoke, v(&[26]));
    assert_eq!(scaled.poise_damage_multiplier, m);
    assert_eq!(scaled.name, "Claymore");
    assert_eq!(w.one_handed.r1.chain.one, v(&[100, 7]));
    assert_eq!(
        w.get_poise_damage_by_attack_w_multiplier(&Attacks::OneHandedR1Chain(0), m),
        Some(v(&[81, 5]))
    );
    assert_eq!(w.get_poise_damage_by_attack_w_multiplier(&Attacks::NoAttack, m), None);
}

#[test]
fn unit_multiplier_changes_nothing() {
    let s = v(&[0, 1, 40, 65535]);
    assert_eq!(s.apply_multiplier(Multiplier::one()), s);
}

#[test]
fn multiplier_keeps_lengths() {
    let s = v(&[10, 20, 30]);
    for m in [-10000, 0, 1, 2500, 5625, 10000, 30000] {
        assert_eq!(s.apply_multiplier(Multiplier::from_ten_thousandths(m)).0.len(), 3);
    }
    assert_eq!(s.apply_multiplier(Multiplier::from_ten_thousandths(-10000)), v(&[0, 0, 0]));
    assert_eq!(v(&[40000]).apply_multiplier(Multiplier::from_ten_thousandths(20000)), v(&[65535]));
}

#[test]
fn store_orders_and_indexes() {
    let mut input = full_dataset();
    input.push(weapon("Great Katana", "Rakshasa's Great Katana"));
    input.push(weapon("Dagger", "Misericorde"));
    input.push(weapon("Dagger", "Dagger"));
    input.push(weapon("Straight Sword", "Broadsword"));
    let data = PoiseData::new(input).unwrap();
    let names: Vec<&str> = data.weapons().iter().map(|w| w.name.as_str()).collect();
    let mut sorted = names.clone();
    sorted.sort();
    assert_eq!(names, sorted);
    let classes = data.weapons_by_class();
    let keys: Vec<&str> = classes.iter().map(|(c, _)| c.as_str()).collect();
    let mut sorted_keys = keys.clone();
    sorted_keys.sort();
    assert_eq!(keys, sorted_keys);
    let daggers = &classes.iter().find(|(c, _)| c == "Dagger").unwrap().1;
    assert_eq!(daggers, &vec!["Dagger".to_string(), "Dagger Example".to_string(), "Misericorde".to_string()]);
    assert_eq!(data.innate_poise("Rakshasa's Great Katana"), Some(77));
    assert_eq!(data.innate_poise("Great Katana Example"), Some(52));
    assert_eq!(data.innate_poise("Misericorde"), Some(11));
    assert_eq!(data.innate_poise("Unknown"), None);
    assert!(data.lookup("Broadsword").is_some());
    assert!(data.lookup("Excalibur").is_none());
}

#[test]
fn weapon_without_override_has_zero_poise() {
    let mut input = full_dataset();
    input.push(weapon("Torch", "Steel-Wire Torch"));
    let data = PoiseData::new(input).unwrap();
    assert_eq!(data.innate_poise("Steel-Wire Torch"), Some(0));
}

#[test]
fn later_rows_replace_earlier_ones() {
    let mut input = full_dataset();
    let mut first = row("Dagger", "Dagger");
    first[2] = "1".to_string();
    let mut second = row("Dagger", "Dagger");
    second[2] = "2".to_string();
    input.push(moveset_from_row(&first, 0).unwrap().unwrap());
    input.push(moveset_from_row(&second, 1).unwrap().unwrap());
    let data = PoiseData::new(input).unwrap();
    assert_eq!(data.damage_for("Dagger", &Attacks::OneHandedR1Chain(0)), Some(&v(&[2])));
    assert_eq!(data.weapons().iter().filter(|w| w.name == "Dagger").count(), 1);
}

#[test]
fn missing_class_fails_initialisation() {
    let input: Vec<WeaponPoiseDamage> =
        full_dataset().into_iter().filter(|w| w.class != "Whip").collect();
    match PoiseData::new(input) {
        Err(StoreError::UnusedOverrides(keys)) => assert_eq!(keys, vec!["Whip".to_string()]),
        Ok(_) => panic!("a missing class must be refused"),
    }
    match PoiseData::new(Vec::new()) {
        Err(StoreError::UnusedOverrides(keys)) => assert_eq!(keys.len(), 34),
        Ok(_) => panic!("an empty dataset must be refused"),
    }
}

#[test]
fn name_entry_shadows_class_entry() {
    let input: Vec<WeaponPoiseDamage> = full_dataset()
        .into_iter()
        .filter(|w| w.class != "Rakshasa's Great Katana")
        .chain(std::iter::once(weapon("Great Katana", "Rakshasa's Great Katana")))
        .collect();
    let data = PoiseData::new(input).unwrap();
    assert_eq!(data.innate_poise("Rakshasa's Great Katana"), Some(77));
}

#[test]
fn store_damage_with_multiplier() {
    let mut input = full_dataset();
    let mut r = row("Greatsword", "Claymore");
    r[25] = "120".to_string();
    input.push(moveset_from_row(&r, 0).unwrap().unwrap());
    let data = PoiseData::new(input).unwrap();
    let m = Multiplier::from_ten_thousandths(2500);
    assert_eq!(
        data.damage_for_with_multiplier("Claymore", &Attacks::TwoHandedR2Chain(0), m),
        Some(v(&[30]))
    );
    assert_eq!(data.damage_for_with_multiplier("Claymore", &Attacks::TwoHandedR2Chain(7), m), None);
    assert_eq!(data.damage_for_with_multiplier("Nobody", &Attacks::TwoHandedR2Chain(0), m), None);
}

#[test]
fn totals_per_weapon_and_class() {
    let mut input = full_dataset();
    let mut a = row("Dagger", "Dagger");
    a[2] = "10 + 20".to_string();
    let mut b = row("Dagger", "Misericorde");
    b[2] = "7".to_string();
    input.push(moveset_from_row(&a, 0).unwrap().unwrap());
    input.push(moveset_from_row(&b, 1).unwrap().unwrap());
    let data = PoiseData::new(input).unwrap();

    let totals = data.get_poise_damage_values_for_attack(&Attacks::OneHandedR1Chain(0));
    assert_eq!(totals.len(), data.weapons().len());
    assert_eq!(totals.iter().sum::<u128>(), 37);
    assert!(data.get_poise_damage_values_for_attack(&Attacks::NoAttack).is_empty());

    let by_class = data.get_poise_damage_values_for_attack_by_class(&Attacks::OneHandedR1Chain(0), &None);
    let daggers = &by_class.iter().find(|(c, _)| c == "Dagger").unwrap().1;
    assert_eq!(
        daggers,
        &vec![
            ("Dagger".to_string(), 30u128),
            ("Dagger Example".to_string(), 0),
            ("Misericorde".to_string(), 7),
        ]
    );
    let halved = data.get_poise_damage_values_for_attack_by_class(
        &Attacks::OneHandedR1Chain(0),
        &Some(Multiplier::from_ten_thousandths(5000)),
    );
    let daggers = &halved.iter().find(|(c, _)| c == "Dagger").unwrap().1;
    assert_eq!(daggers[0], ("Dagger".to_string(), 15));
    assert_eq!(daggers[2], ("Misericorde".to_string(), 3));
    assert!(data
        .get_poise_damage_values_for_attack_by_class(&Attacks::OneHandedR1Chain(9), &None)
        .is_empty());
}

#[test]
fn loader_orders_by_name_and_keeps_last_row() {
    let mut first = row("Dagger", "Misericorde");
    first[2] = "1".to_string();
    let mut second = row("Dagger", "Misericorde");
    second[2] = "2".to_string();
    let rows = vec![row("Straight Sword", "Longsword"), first, row("Axe", "Battle Axe"), second];
    let ws = load_records(&rows).unwrap();
    let names: Vec<&str> = ws.iter().map(|w| w.name.as_str()).collect();
    assert_eq!(names, vec!["Battle Axe", "Longsword", "Misericorde"]);
    assert_eq!(ws[2].one_handed.r1.chain.one, v(&[2]));
}

#[test]
fn records_are_read_as_fields() {
    let text = format!("{}\n{}\n", header(), row("Dagger", "Dagger").join(","));
    let rows = read_records(&text).unwrap();
    assert_eq!(rows.len(), 1);
    assert_eq!(rows[0].len(), ROW_COLUMNS);
    assert_eq!(rows[0][1], "Dagger");
    assert!(matches!(read_records("a,b\n1\n"), Err(LoadError::Csv(_))));
}

#[test]
fn chain_text_marks_later_steps() {
    let mut r = row("Katana", "Uchigatana");
    r[2] = "40".to_string();
    r[3] = "50 + 10".to_string();
    r[5] = "60".to_string();
    let w = moveset_from_row(&r, 0).unwrap().unwrap();
    assert_eq!(w.one_handed.r1.chain.to_text(), "40 \u{23f5} 50 + 10 \u{23f5} 60");
    let mut late = row("Katana", "Nagakiba");
    late[3] = "5".to_string();
    let w = moveset_from_row(&late, 0).unwrap().unwrap();
    assert_eq!(w.one_handed.r1.chain.to_text(), " \u{23f5} 5");
    assert_eq!(w.two_handed.r1.chain.to_text(), "");
}
