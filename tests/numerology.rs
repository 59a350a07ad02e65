use occult_code::numerology::{calculate_life_path, get_meaning};

#[test]
fn life_path_of_a_full_date() {
    assert_eq!(calculate_life_path("19990101"), Some(3));
}

#[test]
fn life_path_of_1988() {
    assert_eq!(calculate_life_path("1988"), Some(8));
}

#[test]
fn life_path_stops_at_master_eleven() {
    assert_eq!(calculate_life_path("29"), Some(11));
}

#[test]
fn life_path_of_49_reduces_twice() {
    assert_eq!(calculate_life_path("49"), Some(4));
}

#[test]
fn life_path_of_299_is_not_a_master() {
    assert_eq!(calculate_life_path("299"), Some(2));
}

#[test]
fn life_path_master_reached_after_a_reduction() {
    // 9 + 9 + 9 + 9 + 2 = 38, then 3 + 8 = 11
    assert_eq!(calculate_life_path("99992"), Some(11));
}

#[test]
fn life_path_masters_22_and_33() {
    assert_eq!(calculate_life_path("499"), Some(22));
    assert_eq!(calculate_life_path("9996"), Some(33));
}

#[test]
fn life_path_ignores_separators() {
    assert_eq!(calculate_life_path("2000-02-02"), Some(6));
    assert_eq!(calculate_life_path("1999/01/01"), calculate_life_path("19990101"));
}

#[test]
fn life_path_without_digits() {
    assert_eq!(calculate_life_path(""), None);
    assert_eq!(calculate_life_path("abc"), None);
    assert_eq!(calculate_life_path("--/--"), None);
}

#[test]
fn life_path_single_digit_and_zero() {
    assert_eq!(calculate_life_path("7"), Some(7));
    assert_eq!(calculate_life_path("0000"), Some(0));
}

#[test]
fn life_path_of_many_nines() {
    // ninety nines sum to 810, then 9
    let s = "9".repeat(90);
    assert_eq!(calculate_life_path(&s), Some(9));
}

#[test]
fn meanings_of_known_numbers() {
    assert!(get_meaning(1).starts_with("1: "));
    assert!(get_meaning(2).starts_with("2: "));
    assert!(get_meaning(3).starts_with("3: "));
    assert!(get_meaning(11).starts_with("11: "));
    assert!(get_meaning(22).starts_with("22: "));
    assert!(get_meaning(33).starts_with("33: "));
}

#[test]
fn meanings_fall_back_for_other_numbers() {
    let general = get_meaning(4);
    assert_eq!(get_meaning(9), general);
    assert_eq!(get_meaning(0), general);
    assert_ne!(get_meaning(1), general);
    assert_eq!(general, "分析完了。詳細は各記事を参照してください。");
}
