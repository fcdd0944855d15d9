use helpcenter_pipeline::utils::Utils;

#[test]
fn sanitize_drops_punctuation_and_maps_spaces() {
    assert_eq!(Utils::sanitize_name("Getting Started!"), "Getting_Started");
    assert_eq!(Utils::sanitize_name("A/B Test"), "AB_Test");
}

#[test]
fn sanitize_is_idempotent_on_examples() {
    for name in ["Getting Started!", "A/B Test", "  a - b_c  ", "", "déjà vu?", "日本語 ガイド"] {
        let once = Utils::sanitize_name(name);
        assert_eq!(Utils::sanitize_name(&once), once);
    }
}

#[test]
fn sanitize_keeps_unicode_letters_and_digits() {
    assert_eq!(Utils::sanitize_name("déjà vu 2?"), "déjà_vu_2");
    assert_eq!(Utils::sanitize_name("a-b_c d"), "a-b_c_d");
    assert_eq!(Utils::sanitize_name("!!!"), "");
    assert_eq!(Utils::sanitize_name(""), "");
}

#[test]
fn front_matter_has_the_exact_layout() {
    assert_eq!(Utils::create_front_matter("Billing"), "---\ntitle: \"Billing\"\n---\n\n");
    assert_eq!(Utils::create_front_matter(""), "---\ntitle: \"\"\n---\n\n");
}

#[test]
fn one_character_is_kept_replaced_or_dropped() {
    assert_eq!(Utils::sanitize_char('a', true), Some('a'));
    assert_eq!(Utils::sanitize_char('7', true), Some('7'));
    assert_eq!(Utils::sanitize_char(' ', false), Some('_'));
    assert_eq!(Utils::sanitize_char('-', false), Some('-'));
    assert_eq!(Utils::sanitize_char('_', false), Some('_'));
    assert_eq!(Utils::sanitize_char('!', false), None);
    assert_eq!(Utils::sanitize_char('/', false), None);
}
