use mdbook_chm::language::ChmLanguage;
use mdbook_chm::language::hex_string;

#[test]
fn from_code_known_and_unknown() {
    assert!(matches!(ChmLanguage::from_code("en-us"), Some(ChmLanguage::EnUs)));
    assert!(matches!(ChmLanguage::from_code("EN-US"), Some(ChmLanguage::EnUs)));
    assert!(matches!(ChmLanguage::from_code("fr"), Some(ChmLanguage::Fr)));
    assert!(matches!(ChmLanguage::from_code("zz-zz"), None));
    assert!(matches!(ChmLanguage::from_code(""), None));
}

#[test]
fn default_language_is_us_english() {
    assert!(matches!(ChmLanguage::default(), ChmLanguage::EnUs));
}

#[test]
fn names_and_ids() {
    assert_eq!(ChmLanguage::EnUs.name(), "English (United States)");
    assert_eq!(ChmLanguage::EnUs.id(), 0x409);
    assert_eq!(ChmLanguage::De.name(), "German (Standard)");
    assert_eq!(ChmLanguage::De.id(), 0x407);
}

#[test]
fn manifest_language_line() {
    assert_eq!(ChmLanguage::EnUs.to_text(), "409 English (United States)");
    assert_eq!(ChmLanguage::ArEg.to_text(), "c01 Arabic (Egypt)");
}

#[test]
fn hex_formatting() {
    assert_eq!(hex_string(0), "0");
    assert_eq!(hex_string(0x409), "409");
    assert_eq!(hex_string(0xdeadbeef_u32), "deadbeef");
    assert_eq!(hex_string(15), "f");
    assert_eq!(hex_string(16), "10");
}
