use ntomb::emoji_width::{
    config_from_environment, config_from_measurement, corrected_cells,
    corrected_str_width_with_offset, count_emoji_chars, get_platform_default_offset,
    is_emoji_char, measured_offset, EmojiWidthConfig,
};

#[test]
fn test_count_emoji_chars() {
    assert_eq!(count_emoji_chars("hello"), 0);
    assert_eq!(count_emoji_chars("🎃"), 1);
    assert_eq!(count_emoji_chars("🎃👻💀"), 3);
    assert_eq!(count_emoji_chars("hello 🎃 world"), 1);
}

#[test]
fn test_is_emoji_char() {
    assert!(is_emoji_char('🎃'));
    assert!(is_emoji_char('👻'));
    assert!(is_emoji_char('💀'));
    assert!(!is_emoji_char('a'));
    assert!(!is_emoji_char('1'));
}

#[test]
fn test_emoji_width_config_corrected_width() {
    let config = EmojiWidthConfig {
        offset: -1,
        detected: true,
        use_ascii_fallback: false,
    };

    let width = config.corrected_width("🎃");
    assert_eq!(width, 1);

    let width = config.corrected_width("hello");
    assert_eq!(width, 5);
}

#[test]
fn test_default_config() {
    let config = EmojiWidthConfig::default();
    assert_eq!(config.offset, 0);
    assert!(!config.detected);
    assert!(!config.use_ascii_fallback);
}

#[test]
fn corrected_width_never_goes_below_zero() {
    assert_eq!(corrected_cells(2, 1, -5), 0);
    assert_eq!(corrected_cells(10, 3, 2), 16);
    assert_eq!(corrected_cells(7, 0, -100), 7);
    assert_eq!(corrected_str_width_with_offset("🎃👻", 1), 6);
    assert_eq!(corrected_str_width_with_offset("", -1), 0);
}

#[test]
fn width_offsets_from_environment_and_measurement() {
    assert_eq!(get_platform_default_offset(true), -1);
    assert_eq!(get_platform_default_offset(false), 0);
    assert_eq!(measured_offset(0, 1), -1);
    assert_eq!(measured_offset(3, 5), 0);

    let from_env = config_from_environment(Some("-1"), false).unwrap();
    assert_eq!(from_env.offset, -1);
    assert!(from_env.detected);
    let ascii = config_from_environment(Some("wide"), true).unwrap();
    assert!(ascii.use_ascii_fallback);
    assert_eq!(ascii.offset, 0);
    assert!(config_from_environment(None, false).is_none());
    assert!(config_from_environment(Some("+2"), false).unwrap().offset == 2);

    let measured = config_from_measurement(Some(1), true);
    assert_eq!(measured.offset, 1);
    assert!(measured.detected);
    let fallback = config_from_measurement(None, true);
    assert_eq!(fallback.offset, -1);
    assert!(!fallback.detected);
}
