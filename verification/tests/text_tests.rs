use hotel_pms::{capitalize_first_word, clean_password, get_formatted_name};

#[test]
fn clean_password_keeps_alnum_and_space_lowercased() {
    assert_eq!(clean_password("Ab 12!@#"), "ab 12");
}

#[test]
fn clean_password_is_idempotent_on_samples() {
    let samples = ["Ab 12!@#", "  Guest-007  ", "##", "", "ALL CAPS 99", "tab\there"];
    for s in samples {
        let once = clean_password(s);
        let twice = clean_password(&once);
        assert_eq!(twice, once);
    }
}

#[test]
fn clean_password_trims_after_filtering() {
    assert_eq!(clean_password("!! secret !!"), "secret");
    assert_eq!(clean_password("   "), "");
}

#[test]
fn clean_password_keeps_unicode_letters() {
    assert_eq!(clean_password("\u{C4}b 12!@#"), "\u{E4}b 12");
}

#[test]
fn clean_password_unicode_case_mapping_can_add_marks() {
    let once = clean_password("\u{130}");
    assert_eq!(once, "i\u{307}");
    let twice = clean_password(&once);
    assert_eq!(twice, "i");
}

#[test]
fn capitalize_first_word_capitalizes_each_word() {
    assert_eq!(capitalize_first_word("jane doe"), "Jane Doe");
    assert_eq!(capitalize_first_word("hELLo wOrLD"), "Hello World");
    assert_eq!(capitalize_first_word(""), "");
    assert_eq!(capitalize_first_word("  spaced   out  "), "Spaced Out");
}

#[test]
fn capitalize_first_word_is_idempotent_on_ascii_samples() {
    let samples = ["jane doe", "hELLo wOrLD", "", "  spaced   out  ", "x"];
    for s in samples {
        let once = capitalize_first_word(s);
        let twice = capitalize_first_word(&once);
        assert_eq!(twice, once);
    }
}

#[test]
fn capitalize_first_word_uses_unicode_case_mapping() {
    assert_eq!(capitalize_first_word("\u{E9}clair au caf\u{E9}"), "\u{C9}clair Au Caf\u{E9}");
    assert_eq!(capitalize_first_word("stra\u{DF}e"), "Stra\u{DF}e");
    assert_eq!(capitalize_first_word("\u{DF}"), "SS");
}

#[test]
fn formatted_name_falls_back_to_passcode() {
    assert_eq!(get_formatted_name(&None, &Some("janedoe".to_string())), "Janedoe");
    assert_eq!(get_formatted_name(&None, &Some("jos\u{E9}".to_string())), "Jos\u{E9}");
}

#[test]
fn formatted_name_uses_trimmed_name_when_present() {
    assert_eq!(
        get_formatted_name(&Some("  jane doe ".to_string()), &Some("whatever".to_string())),
        "Jane Doe"
    );
}

#[test]
fn formatted_name_blank_name_falls_back() {
    assert_eq!(get_formatted_name(&Some("   ".to_string()), &Some("bob".to_string())), "Bob");
    assert_eq!(get_formatted_name(&None, &None), "");
}
