use zj_which_key::config::{lookup, parse_config, read_flag, Settings};

fn entries(pairs: &[(&str, &str)]) -> Vec<(String, String)> {
    pairs.iter().map(|(k, v)| (String::from(*k), String::from(*v))).collect()
}

#[test]
fn an_empty_configuration_gives_the_defaults() {
    assert_eq!(
        parse_config(&vec![]),
        Settings { is_overlay: false, auto_show: true, hide_in_base_mode: true, max_lines: 20 }
    );
}

#[test]
fn a_configuration_sets_every_setting() {
    let config = entries(&[
        ("is_overlay", "true"),
        ("auto_show_on_mode_change", "false"),
        ("hide_in_base_mode", "false"),
        ("max_lines", "7"),
    ]);
    assert_eq!(
        parse_config(&config),
        Settings { is_overlay: true, auto_show: false, hide_in_base_mode: false, max_lines: 7 }
    );
}

#[test]
fn a_switch_is_off_for_the_word_false() {
    let config = entries(&[
        ("is_overlay", "false"),
        ("auto_show_on_mode_change", "false"),
        ("hide_in_base_mode", "false"),
    ]);
    assert_eq!(
        parse_config(&config),
        Settings { is_overlay: false, auto_show: false, hide_in_base_mode: false, max_lines: 20 }
    );
}

#[test]
fn a_switch_is_on_for_the_word_true() {
    let config = entries(&[
        ("is_overlay", "true"),
        ("auto_show_on_mode_change", "true"),
        ("hide_in_base_mode", "true"),
    ]);
    assert_eq!(
        parse_config(&config),
        Settings { is_overlay: true, auto_show: true, hide_in_base_mode: true, max_lines: 20 }
    );
}

#[test]
fn a_switch_that_cannot_be_read_has_its_default() {
    for value in ["True", "TRUE", "False", "1", "0", "yes", "no", "", " true", "true ", "falsee"] {
        let config = entries(&[
            ("is_overlay", value),
            ("auto_show_on_mode_change", value),
            ("hide_in_base_mode", value),
        ]);
        assert_eq!(
            parse_config(&config),
            Settings { is_overlay: false, auto_show: true, hide_in_base_mode: true, max_lines: 20 }
        );
        let config = entries(&[("anything", value)]);
        assert!(read_flag(&config, "anything", true));
        assert!(!read_flag(&config, "anything", false));
    }
}

#[test]
fn two_switches_with_other_words_stay_on() {
    let config = entries(&[("auto_show_on_mode_change", "yes"), ("hide_in_base_mode", "1")]);
    assert_eq!(
        parse_config(&config),
        Settings { is_overlay: false, auto_show: true, hide_in_base_mode: true, max_lines: 20 }
    );
}

#[test]
fn max_lines_that_cannot_be_read_is_the_default() {
    for value in ["", "many", "-3", "1.5", "12 ", "99999999999999999999999999"] {
        assert_eq!(parse_config(&entries(&[("max_lines", value)])).max_lines, 20);
    }
    assert_eq!(parse_config(&entries(&[("max_lines", "0")])).max_lines, 0);
    assert_eq!(parse_config(&entries(&[("max_lines", "+12")])).max_lines, 12);
    assert_eq!(parse_config(&entries(&[("max_lines", "100")])).max_lines, 100);
}

#[test]
fn unknown_keys_are_passed_over() {
    let config = entries(&[("colour", "blue"), ("IS_OVERLAY", "true"), ("max_line", "3")]);
    assert_eq!(
        parse_config(&config),
        Settings { is_overlay: false, auto_show: true, hide_in_base_mode: true, max_lines: 20 }
    );
}

#[test]
fn a_later_entry_replaces_an_earlier_one() {
    let config = entries(&[("max_lines", "3"), ("is_overlay", "true"), ("max_lines", "5")]);
    assert_eq!(parse_config(&config).max_lines, 5);
    assert_eq!(lookup(&config, "max_lines"), Some(&String::from("5")));
    assert_eq!(lookup(&config, "is_overlay"), Some(&String::from("true")));
    assert_eq!(lookup(&config, "hide_in_base_mode"), None);
    let config = entries(&[("is_overlay", "true"), ("is_overlay", "false")]);
    assert!(!parse_config(&config).is_overlay);
    let config = entries(&[("hide_in_base_mode", "false"), ("hide_in_base_mode", "no")]);
    assert!(parse_config(&config).hide_in_base_mode);
    let config = entries(&[("hide_in_base_mode", "no"), ("hide_in_base_mode", "false")]);
    assert!(!parse_config(&config).hide_in_base_mode);
}

#[test]
fn a_switch_that_is_missing_has_its_default() {
    assert!(read_flag(&vec![], "anything", true));
    assert!(!read_flag(&vec![], "anything", false));
    let config = entries(&[("anything", "true")]);
    assert!(read_flag(&config, "anything", false));
    assert!(read_flag(&config, "anything", true));
    let config = entries(&[("anything", "false")]);
    assert!(!read_flag(&config, "anything", true));
    assert!(!read_flag(&config, "anything", false));
    let config = entries(&[("something", "false")]);
    assert!(read_flag(&config, "anything", true));
}
