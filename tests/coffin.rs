use ntomb::coffin::{
    build_label_coffin, build_large_coffin, build_mid_coffin, center_pad, choose_coffin_for_cells,
    truncate_host_name, CoffinVariant, LARGE_COFFIN_HEIGHT, LARGE_COFFIN_WIDTH, MID_COFFIN_HEIGHT,
    MID_COFFIN_WIDTH,
};

#[test]
fn large_coffin_shape_is_stable() {
    let coffin = build_large_coffin("HOST");

    assert_eq!(coffin.variant, CoffinVariant::Large);
    assert_eq!(coffin.height, 4, "Large coffin must be exactly 4 lines");
    assert_eq!(coffin.width, LARGE_COFFIN_WIDTH, "Large coffin width must match constant");
    assert_eq!(coffin.lines.len(), 4);

    for (i, line) in coffin.lines.iter().enumerate() {
        assert_eq!(line.chars().count(), 14, "Line {} must be exactly 14 chars", i);
    }

    assert_eq!(coffin.lines[0], "   /‾‾‾‾‾‾\\   ", "Line 0 (top) must match exactly");
    assert!(coffin.lines[1].contains("HOST"), "Line 1 must contain HOST");
    assert!(coffin.lines[1].starts_with("  /"), "Line 1 must start with '  /'");
    assert!(coffin.lines[1].ends_with("\\  "), "Line 1 must end with '\\  '");
    assert_eq!(coffin.lines[2], "  \\        /  ", "Line 2 must match exactly");
    assert_eq!(coffin.lines[3], "   \\______/   ", "Line 3 (bottom) must match exactly");
}

#[test]
fn mid_coffin_shape_is_stable() {
    let coffin = build_mid_coffin("HOST");

    assert_eq!(coffin.variant, CoffinVariant::Mid);
    assert_eq!(coffin.height, 3, "Mid coffin must be exactly 3 lines");
    assert_eq!(coffin.width, MID_COFFIN_WIDTH, "Mid coffin width must match constant");
    assert_eq!(coffin.lines.len(), 3);

    for (i, line) in coffin.lines.iter().enumerate() {
        assert_eq!(line.chars().count(), 11, "Line {} must be exactly 11 chars", i);
    }

    assert_eq!(coffin.lines[0], " /‾‾‾‾‾‾\\  ", "Line 0 (top) must match exactly");
    assert!(coffin.lines[1].contains("HOST"), "Line 1 must contain HOST");
    assert!(coffin.lines[1].starts_with("/"), "Line 1 must start with '/'");
    assert!(coffin.lines[1].ends_with(" "), "Line 1 must end with space");
    assert_eq!(coffin.lines[2], " \\______/  ", "Line 2 (bottom) must match exactly");
}

#[test]
fn label_coffin_format_is_stable() {
    let coffin = build_label_coffin("HOST", 20);

    assert_eq!(coffin.variant, CoffinVariant::Label);
    assert_eq!(coffin.height, 1, "Label coffin must be exactly 1 line");
    assert_eq!(coffin.lines.len(), 1);

    assert_eq!(coffin.lines[0], "[⚰ HOST]", "Label format must be [⚰ HOST]");
}

#[test]
fn test_coffin_name_truncation() {
    let coffin = build_large_coffin("kafka-broker-1");

    let has_truncated = coffin.lines.iter().any(|line| line.contains(".."));
    assert!(has_truncated, "Long name should be truncated with ..");

    let host_line = &coffin.lines[1];
    assert_eq!(
        host_line.chars().count(),
        LARGE_COFFIN_WIDTH,
        "Truncated name line must maintain coffin width"
    );
}

#[test]
fn test_coffin_dimensions_are_fixed() {
    let large = build_large_coffin("X");
    assert_eq!(large.width, LARGE_COFFIN_WIDTH);
    assert_eq!(large.height, LARGE_COFFIN_HEIGHT);
    assert_eq!(large.width, 14, "Large coffin width constant must be 14");
    assert_eq!(large.height, 4, "Large coffin height constant must be 4");

    let mid = build_mid_coffin("X");
    assert_eq!(mid.width, MID_COFFIN_WIDTH);
    assert_eq!(mid.height, MID_COFFIN_HEIGHT);
    assert_eq!(mid.width, 11, "Mid coffin width constant must be 11");
    assert_eq!(mid.height, 3, "Mid coffin height constant must be 3");
}

#[test]
fn test_truncate_host_name() {
    assert_eq!(truncate_host_name("HOST", 10), "HOST");
    assert_eq!(truncate_host_name("kafka-broker-1", 6), "kafk..");
    assert_eq!(truncate_host_name("AB", 2), "AB");
    assert_eq!(truncate_host_name("ABCD", 3), "ABC");
    assert_eq!(truncate_host_name("ABCDEF", 4), "AB..");
}

#[test]
fn test_center_pad() {
    assert_eq!(center_pad("X", 5), "  X  ");
    assert_eq!(center_pad("AB", 6), "  AB  ");
    assert_eq!(center_pad("HOST", 6), " HOST ");
    assert_eq!(center_pad("TOOLONG", 4), "TOOLONG");
    assert_eq!(center_pad("ABC", 4), "ABC ");
}

#[test]
fn test_coffin_with_various_hostnames() {
    let short = build_large_coffin("DB");
    assert!(short.lines[1].contains("DB"), "Short name should be visible");

    let exact = build_large_coffin("KAFKA1");
    assert!(exact.lines[1].contains("KAFKA1"), "Exact fit name should be visible");

    let long = build_large_coffin("very-long-hostname");
    assert!(long.lines[1].contains(".."), "Long name should be truncated");
    assert!(!long.lines[1].contains("very-long"), "Full long name should not appear");
}

#[test]
fn test_label_coffin_width_constraint() {
    let narrow = build_label_coffin("kafka-broker-1", 10);
    assert!(narrow.width <= 10, "Label should respect max_width");

    let wide = build_label_coffin("kafka-broker-1", 30);
    assert!(
        wide.lines[0].len() > narrow.lines[0].len(),
        "Wider constraint should show more of the name"
    );
}

#[test]
fn coffin_degrades_with_available_cells() {
    assert_eq!(choose_coffin_for_cells(100, 25, "TEST").variant, CoffinVariant::Large);
    assert_eq!(choose_coffin_for_cells(14, 4, "TEST").variant, CoffinVariant::Large);
    assert_eq!(choose_coffin_for_cells(13, 4, "TEST").variant, CoffinVariant::Mid);
    assert_eq!(choose_coffin_for_cells(100, 3, "TEST").variant, CoffinVariant::Mid);
    assert_eq!(choose_coffin_for_cells(10, 1, "TEST").variant, CoffinVariant::Label);
    assert_eq!(choose_coffin_for_cells(100, 2, "TEST").variant, CoffinVariant::Label);
}

#[test]
fn narrow_label_still_gets_ten_cells() {
    let label = choose_coffin_for_cells(2, 1, "kafka-broker-1");
    assert_eq!(label.lines, vec!["[⚰ kafk..]".to_string()]);
    assert_eq!(label.width, 10);
}

#[test]
fn mid_coffin_sets_name_in_slot() {
    let coffin = build_mid_coffin("AB");
    assert_eq!(coffin.lines[1], "/   AB   \\ ");
    let long = build_large_coffin("kafka-broker-1");
    assert_eq!(long.lines[1], "  / kafk.. \\  ");
}

#[test]
fn exclusion_radius_shrinks_with_the_glyph() {
    assert_eq!(CoffinVariant::Large.exclusion_radius(), 15);
    assert_eq!(CoffinVariant::Mid.exclusion_radius(), 12);
    assert_eq!(CoffinVariant::Label.exclusion_radius(), 8);
}

#[test]
fn truncation_keeps_short_limits_without_marker() {
    assert_eq!(truncate_host_name("", 0), "");
    assert_eq!(truncate_host_name("ABCDE", 0), "");
    assert_eq!(truncate_host_name("ÄÖÜßé", 4), "ÄÖ..");
}

#[test]
fn chosen_glyph_carries_its_dimensions() {
    let large = choose_coffin_for_cells(14, 4, "HOST");
    assert_eq!((large.width, large.height), (14, 4));
    let mid = choose_coffin_for_cells(11, 3, "HOST");
    assert_eq!((mid.width, mid.height), (11, 3));
    let label = choose_coffin_for_cells(10, 2, "HOST");
    assert_eq!((label.width, label.height), (8, 1));
}
