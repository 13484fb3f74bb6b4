use coquerythmo_ui::text::{to_uppercase, trim};

#[test]
fn upper_case_follows_unicode_mappings() {
    assert_eq!(to_uppercase("straße"), "STRASSE");
    assert_eq!(to_uppercase("Vidéo"), "VIDÉO");
}

#[test]
fn trimming_removes_unicode_white_space_at_both_ends() {
    assert_eq!(trim("\u{3000} nom \t"), "nom");
    assert_eq!(trim("   "), "");
}
