use t2fanrd::discovery::{fan_name_from_input, is_smc_device};
use t2fanrd::text::same_text;

#[test]
fn recognises_smc() {
    assert!(is_smc_device("applesmc\n"));
    assert!(is_smc_device("  applesmc"));
    assert!(!is_smc_device("coretemp\n"));
    assert!(!is_smc_device("applesmc2"));
}

#[test]
fn fan_names() {
    assert_eq!(fan_name_from_input("fan1_input"), Some("fan1"));
    assert_eq!(fan_name_from_input("_input"), Some(""));
    assert_eq!(fan_name_from_input("fan1_output"), None);
    assert_eq!(fan_name_from_input("input"), None);
    assert_eq!(fan_name_from_input("fän1_input"), Some("fän1"));
}

#[test]
fn texts_compare_by_characters() {
    assert!(same_text("abc", "abc"));
    assert!(!same_text("abc", "abd"));
    assert!(!same_text("abc", "ab"));
    assert!(same_text("", ""));
}

#[test]
fn whitespace_is_unicode_white_space() {
    for c in (0u32..=0x10FFFF).filter_map(char::from_u32) {
        assert_eq!(t2fanrd::text::is_whitespace_char(c), c.is_whitespace(), "{:?}", c);
    }
}

#[test]
fn trims_like_std() {
    for s in ["", " ", "  a b \n", "\u{3000}x\u{85}", "x", "\t\r\nfan1\u{2009}", "a\u{200b}"] {
        assert_eq!(t2fanrd::text::trim(s), s.trim());
        assert_eq!(t2fanrd::text::trim_end(s), s.trim_end());
    }
}

#[test]
fn parses_flags() {
    assert_eq!(t2fanrd::text::parse_bool("true"), Some(true));
    assert_eq!(t2fanrd::text::parse_bool("false"), Some(false));
    assert_eq!(t2fanrd::text::parse_bool("True"), None);
    assert_eq!(t2fanrd::text::parse_bool(" true"), None);
    assert_eq!(t2fanrd::text::parse_bool(""), None);
}
