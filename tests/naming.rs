use genome_core::genome_data::ModeSettings;
use genome_core::naming::{generate_next_mode_name, is_name_taken, parse_i32};

fn named(names: &[&str]) -> Vec<ModeSettings<()>> {
    names
        .iter()
        .enumerate()
        .map(|(i, n)| ModeSettings::new_self_splitting(i as i32, n.to_string(), ()))
        .collect()
}

#[test]
fn next_integer_name_when_free() {
    let modes = named(&["Mode 0", "Mode 3"]);
    assert_eq!(generate_next_mode_name("Mode 3", &modes), "Mode 4");
}

#[test]
fn sub_level_when_next_integer_taken() {
    let modes = named(&["Mode 3", "Mode 4"]);
    assert_eq!(generate_next_mode_name("Mode 3", &modes), "Mode 3.1");
    let modes = named(&["Mode 3", "Mode 4", "Mode 3.1", "Mode 3.2"]);
    assert_eq!(generate_next_mode_name("Mode 3", &modes), "Mode 3.3");
}

#[test]
fn dotted_name_increments_last_segment() {
    let modes = named(&["Mode 3", "Mode 3.1"]);
    assert_eq!(generate_next_mode_name("Mode 3.1", &modes), "Mode 3.2");
}

#[test]
fn dotted_name_goes_one_level_deeper_when_sibling_taken() {
    let modes = named(&["Mode 3.1", "Mode 3.2"]);
    assert_eq!(generate_next_mode_name("Mode 3.1", &modes), "Mode 3.1.1");
    let modes = named(&["Mode 1.2.3", "Mode 1.2.4", "Mode 1.2.3.1"]);
    assert_eq!(generate_next_mode_name("Mode 1.2.3", &modes), "Mode 1.2.3.2");
}

#[test]
fn default_name_counts_as_taken() {
    let mut modes = named(&["Mode 3"]);
    let mut other = ModeSettings::new_self_splitting(1, "Mode 4".to_string(), ());
    other.name = "Renamed".to_string();
    modes.push(other);
    assert_eq!(generate_next_mode_name("Mode 3", &modes), "Mode 3.1");
}

#[test]
fn unmatched_base_falls_back_to_mode_count() {
    let modes = named(&["Alpha", "Beta", "Gamma"]);
    assert_eq!(generate_next_mode_name("Alpha", &modes), "Mode 3");
    assert_eq!(generate_next_mode_name("Mode x", &modes), "Mode 3");
    assert_eq!(generate_next_mode_name("", &modes), "Mode 3");
}

#[test]
fn exhausted_search_falls_back_to_mode_count() {
    let mut names: Vec<String> = vec!["Mode 1".to_string(), "Mode 2".to_string()];
    for i in 1..100 {
        names.push(format!("Mode 1.{}", i));
    }
    let modes: Vec<ModeSettings<()>> = names
        .iter()
        .map(|n| ModeSettings::new_self_splitting(0, n.clone(), ()))
        .collect();
    assert_eq!(generate_next_mode_name("Mode 1", &modes), format!("Mode {}", modes.len()));
}

#[test]
fn unparseable_last_segment_goes_deeper() {
    let modes = named(&["Mode 2.x"]);
    assert_eq!(generate_next_mode_name("Mode 2.x", &modes), "Mode 2.x.1");
}

#[test]
fn leading_dot_path_drops_empty_prefix() {
    let modes = named(&["Mode .5"]);
    assert_eq!(generate_next_mode_name("Mode .5", &modes), "Mode 6");
}

#[test]
fn signs_and_large_numbers() {
    let modes = named(&["Mode -1"]);
    assert_eq!(generate_next_mode_name("Mode -1", &modes), "Mode 0");
    let modes = named(&["Mode -1", "Mode 0"]);
    assert_eq!(generate_next_mode_name("Mode -1", &modes), "Mode -1.1");
    let modes = named(&["Mode 2147483647"]);
    assert_eq!(generate_next_mode_name("Mode 2147483647", &modes), "Mode 2147483648");
    let modes = named(&["Mode +7"]);
    assert_eq!(generate_next_mode_name("Mode +7", &modes), "Mode 8");
}

#[test]
fn hundred_chained_names_are_all_fresh() {
    let mut modes = named(&["Mode 1"]);
    for _ in 0..100 {
        let name = generate_next_mode_name("Mode 1", &modes);
        assert!(!is_name_taken(&modes, &name), "{} was already taken", name);
        let idx = modes.len() as i32;
        modes.push(ModeSettings::new_self_splitting(idx, name, ()));
    }
    assert_eq!(modes[1].name, "Mode 2");
    assert_eq!(modes[2].name, "Mode 1.1");
    assert_eq!(modes[100].name, "Mode 1.99");
}

#[test]
fn name_taken_checks_both_names() {
    let mut modes = named(&["Mode 0"]);
    modes[0].name = "Shown".to_string();
    assert!(is_name_taken(&modes, &"Shown".to_string()));
    assert!(is_name_taken(&modes, &"Mode 0".to_string()));
    assert!(!is_name_taken(&modes, &"Mode 1".to_string()));
}

#[test]
fn parse_i32_reads_signed_decimals() {
    assert_eq!(parse_i32("42"), Some(42));
    assert_eq!(parse_i32("-7"), Some(-7));
    assert_eq!(parse_i32("+3"), Some(3));
    assert_eq!(parse_i32("007"), Some(7));
    assert_eq!(parse_i32("2147483647"), Some(i32::MAX));
    assert_eq!(parse_i32("-2147483648"), Some(i32::MIN));
    assert_eq!(parse_i32("2147483648"), None);
    assert_eq!(parse_i32("-2147483649"), None);
    assert_eq!(parse_i32("99999999999999999999"), None);
    assert_eq!(parse_i32(""), None);
    assert_eq!(parse_i32("-"), None);
    assert_eq!(parse_i32("+"), None);
    assert_eq!(parse_i32("12a"), None);
    assert_eq!(parse_i32(" 1"), None);
    for s in ["0", "15", "-300", "2147483647", "x", "1.5", "--1"] {
        assert_eq!(parse_i32(s), s.parse::<i32>().ok(), "{}", s);
    }
}
