use hyperarmor_inspector::damage::{malformed_pieces, poise_string_to_numbers, PoiseDamageValues};
use hyperarmor_inspector::multiplier::PoiseDamage;

#[test]
fn data_test() {
    assert_eq!(poise_string_to_numbers("10"), vec![10]);
    assert_eq!(poise_string_to_numbers("10 + 10"), vec![10, 10]);
    assert_eq!(poise_string_to_numbers("302.5 + 605"), vec![302, 605]);
    assert_eq!(poise_string_to_numbers(""), Vec::<PoiseDamage>::new());
    assert_eq!(poise_string_to_numbers(" "), Vec::<PoiseDamage>::new());
}

#[test]
fn blank_cells_are_empty() {
    assert_eq!(poise_string_to_numbers("  "), Vec::<PoiseDamage>::new());
    assert_eq!(poise_string_to_numbers("\t\n"), Vec::<PoiseDamage>::new());
    assert_eq!(poise_string_to_numbers("\u{a0}"), Vec::<PoiseDamage>::new());
}

#[test]
fn fractions_are_truncated_not_rounded() {
    assert_eq!(poise_string_to_numbers("12.99"), vec![12]);
    assert_eq!(poise_string_to_numbers("5."), vec![5]);
    assert_eq!(poise_string_to_numbers(".5"), vec![0]);
}

#[test]
fn malformed_pieces_count_zero() {
    assert_eq!(poise_string_to_numbers("abc"), vec![0]);
    assert_eq!(poise_string_to_numbers("10 + x + 20"), vec![10, 0, 20]);
    assert_eq!(poise_string_to_numbers("10 +"), vec![10, 0]);
    assert_eq!(poise_string_to_numbers("1.2.3"), vec![0]);
    assert_eq!(poise_string_to_numbers("-5"), vec![0]);
}

#[test]
fn pieces_are_trimmed() {
    assert_eq!(poise_string_to_numbers("  7+ 8 \u{3000}"), vec![7, 8]);
}

#[test]
fn large_numbers_saturate() {
    assert_eq!(poise_string_to_numbers("70000"), vec![65535]);
    assert_eq!(poise_string_to_numbers("65535"), vec![65535]);
    assert_eq!(poise_string_to_numbers("999999999999999999999"), vec![65535]);
}

#[test]
fn cell_builds_damage_values() {
    let v = PoiseDamageValues::from_cell("40 + 20");
    assert_eq!(v, PoiseDamageValues(vec![40, 20]));
}

#[test]
fn malformed_pieces_are_reported() {
    assert_eq!(malformed_pieces("10 + x + 20"), vec![1usize]);
    assert_eq!(malformed_pieces("abc"), vec![0usize]);
    assert_eq!(malformed_pieces("10 +"), vec![1usize]);
    assert_eq!(malformed_pieces("302.5 + 605"), Vec::<usize>::new());
    assert_eq!(malformed_pieces("   "), Vec::<usize>::new());
    assert_eq!(malformed_pieces("a+b"), vec![0usize, 1]);
}

#[test]
fn values_text_joins_with_plus() {
    assert_eq!(PoiseDamageValues(vec![40, 20]).to_text(), "40 + 20");
    assert_eq!(PoiseDamageValues(vec![0, 65535, 7]).to_text(), "0 + 65535 + 7");
    assert_eq!(PoiseDamageValues(vec![]).to_text(), "");
    let round = PoiseDamageValues::from_cell(&PoiseDamageValues(vec![302, 605, 1]).to_text());
    assert_eq!(round, PoiseDamageValues(vec![302, 605, 1]));
}
