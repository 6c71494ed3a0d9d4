use signal_frame::naming::{schema_file_stem_from_package, to_pascal_case, to_snake_case};

#[test]
fn snake_case_splits_before_upper_case_letters() {
    assert_eq!(to_snake_case("SubmitMessage"), "submit_message");
    assert_eq!(to_snake_case("Query"), "query");
    assert_eq!(to_snake_case("already_snake"), "already_snake");
    assert_eq!(to_snake_case("HTTPGet"), "h_t_t_p_get");
    assert_eq!(to_snake_case(""), "");
}

#[test]
fn snake_case_uses_the_full_lower_case_mapping() {
    assert_eq!(to_snake_case("Ünder"), "ünder");
    assert_eq!(to_snake_case("xİ"), "x_i\u{307}");
}

#[test]
fn pascal_case_joins_words_at_separators() {
    assert_eq!(to_pascal_case("signal-persona-mind"), "SignalPersonaMind");
    assert_eq!(to_pascal_case("spirit_reader"), "SpiritReader");
    assert_eq!(to_pascal_case("--a"), "A");
    assert_eq!(to_pascal_case("ß"), "SS");
    assert_eq!(to_pascal_case(""), "");
}

#[test]
fn schema_file_stem_drops_the_first_matching_prefix() {
    assert_eq!(schema_file_stem_from_package("owner-signal-persona-mind"), "mind");
    assert_eq!(schema_file_stem_from_package("signal-persona-spirit"), "spirit");
    assert_eq!(schema_file_stem_from_package("owner-signal-router"), "router");
    assert_eq!(schema_file_stem_from_package("signal-frame"), "frame");
    assert_eq!(schema_file_stem_from_package("persona-mind"), "persona-mind");
    assert_eq!(schema_file_stem_from_package("signal-"), "");
}
