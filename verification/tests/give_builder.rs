use soul_lantern::give::builder::{
    bool_byte, color_lerp, component_id, detect_give_version_from_raw, get_modern_profile, hex_to_rgb,
    is_java1205_family, is_java121_legacy_family, is_java1212_family, is_modern_nbt_family, normalize_version,
    pair_value, quote, resolve_text_profile, rgb_to_hex, shadow_color_int, snbt_json_string, strip_minecraft_namespace,
    GiveVersion,
};
use soul_lantern::give::number::Decimal;

#[test]
fn detect_give_version_from_raw_matches_ts() {
    assert_eq!(detect_give_version_from_raw("1.20.5"), Some(GiveVersion::Java1_20_5));
    assert_eq!(detect_give_version_from_raw("1.20.6"), Some(GiveVersion::Java1_20_5));
    assert_eq!(detect_give_version_from_raw("1.20.4"), None);
    assert_eq!(detect_give_version_from_raw("1.21"), Some(GiveVersion::Java1_21));
    assert_eq!(detect_give_version_from_raw("1.21.1"), Some(GiveVersion::Java1_21_1));
    assert_eq!(detect_give_version_from_raw("1.21.2"), Some(GiveVersion::Java1_21_2));
    assert_eq!(detect_give_version_from_raw("1.21.3"), Some(GiveVersion::Java1_21_3));
    assert_eq!(detect_give_version_from_raw("1.21.4"), Some(GiveVersion::Java1_21_4));
    assert_eq!(detect_give_version_from_raw("1.21.5"), Some(GiveVersion::Java1_21_5));
    assert_eq!(detect_give_version_from_raw("1.21.6"), Some(GiveVersion::Java1_21_6));
    assert_eq!(detect_give_version_from_raw("1.21.7"), Some(GiveVersion::Java1_21_6));
    assert_eq!(detect_give_version_from_raw("1.21.8"), Some(GiveVersion::Java1_21_6));
    assert_eq!(detect_give_version_from_raw("1.21.9"), Some(GiveVersion::Java1_21_9));
    assert_eq!(detect_give_version_from_raw("1.21.10"), Some(GiveVersion::Java1_21_9));
    assert_eq!(detect_give_version_from_raw("1.21.11"), Some(GiveVersion::Java1_21_11Plus));
    assert_eq!(detect_give_version_from_raw("1.21.20"), Some(GiveVersion::Java1_21_11Plus));
    assert_eq!(detect_give_version_from_raw("26.1"), Some(GiveVersion::Java26_1));
    assert_eq!(detect_give_version_from_raw("26.2"), Some(GiveVersion::Java26_2Plus));
    assert_eq!(detect_give_version_from_raw("26.3"), Some(GiveVersion::Java26_2Plus));
    assert_eq!(detect_give_version_from_raw("27.0"), Some(GiveVersion::Java26_2Plus));
    assert_eq!(detect_give_version_from_raw(""), None);
    assert_eq!(detect_give_version_from_raw("not-a-version"), None);
    assert_eq!(detect_give_version_from_raw("1.19"), None);
}

#[test]
fn get_modern_profile_matches_family_flags() {
    assert!(!get_modern_profile(GiveVersion::Bedrock).supports_glider);
    assert!(!get_modern_profile(GiveVersion::Java1_21).supports_attribute_modifiers);
    assert!(!get_modern_profile(GiveVersion::Java1_20_5).supports_consumable);
    assert!(get_modern_profile(GiveVersion::Java1_21_2).supports_glider);
    assert!(get_modern_profile(GiveVersion::Java1_21_11Plus).supports_tooltip_display);
}

#[test]
fn is_modern_nbt_family_boundary() {
    assert!(!is_modern_nbt_family(GiveVersion::Java1_21_4));
    assert!(is_modern_nbt_family(GiveVersion::Java1_21_5));
    assert!(is_modern_nbt_family(GiveVersion::Java26_2Plus));
    assert!(!is_modern_nbt_family(GiveVersion::Bedrock));
}

#[test]
fn color_helpers_roundtrip() {
    assert_eq!(hex_to_rgb("#000599").unwrap(), (0x00, 0x05, 0x99));
    assert!(hex_to_rgb("not-a-color").is_err());
    assert_eq!(rgb_to_hex((0, 5, 0x99)), "#000599");
    let grad = color_lerp("#000000", "#ffffff", 3).unwrap();
    assert_eq!(grad, vec!["#000000".to_string(), "#808080".to_string(), "#ffffff".to_string()]);
    assert_eq!(shadow_color_int("#ff0000", Decimal::whole(100)).unwrap(), -65536);
}

#[test]
fn shadow_alpha_is_clamped_and_rounded() {
    assert_eq!(shadow_color_int("#ff0000", Decimal::whole(0)).unwrap(), 0x00ff0000);
    assert_eq!(shadow_color_int("#ff0000", Decimal::whole(50)).unwrap(), 0x80ff0000u32 as i32 as i64);
    assert_eq!(shadow_color_int("#000000", Decimal::whole(150)).unwrap(), -16777216);
    assert_eq!(shadow_color_int("#0000ff", Decimal::whole(-5)).unwrap(), 255);
    assert_eq!(shadow_color_int("#000000", Decimal { mantissa: 3, exponent: -1 }).unwrap(), 1 << 24);
    assert_eq!(shadow_color_int("#000000", Decimal { mantissa: 1, exponent: -1 }).unwrap(), 0);
    assert_eq!(shadow_color_int("red", Decimal::whole(50)).unwrap_err(), "颜色必须是 #RRGGBB");
}

#[test]
fn gradients_at_the_edges() {
    assert!(color_lerp("bad", "#ffffff", 0).unwrap().is_empty());
    assert_eq!(color_lerp("#ABCDEF", "bad", 1).unwrap_err(), "颜色必须是 #RRGGBB");
    assert_eq!(color_lerp("#0a0b0c", "#ffffff", 1).unwrap(), vec!["#0a0b0c".to_string()]);
    assert_eq!(color_lerp("#000000", "#010101", 3).unwrap()[1], "#010101");
    assert_eq!(hex_to_rgb(" #FfA0b1 ").unwrap(), (0xff, 0xa0, 0xb1));
    assert!(hex_to_rgb("#12345").is_err());
    assert!(hex_to_rgb("#12345g").is_err());
}

#[test]
fn families_and_profiles() {
    assert!(is_java121_legacy_family(GiveVersion::Java1_21_1));
    assert!(!is_java121_legacy_family(GiveVersion::Java1_21_2));
    assert!(is_java1205_family(GiveVersion::Java1_20_5));
    assert!(is_java1212_family(GiveVersion::Java1_21_4));
    assert!(!is_java1212_family(GiveVersion::Java1_21_5));
    let tp = resolve_text_profile(GiveVersion::Java1_21_6);
    assert!(tp.event_format_modern && tp.supports_shadow_array && !tp.supports_object_component);
    let bedrock = resolve_text_profile(GiveVersion::Bedrock);
    assert!(!bedrock.event_format_modern && !bedrock.supports_shadow_array);
    assert_eq!(normalize_version("java_1_21_9"), GiveVersion::Java1_21_9);
    assert_eq!(normalize_version("bedrock"), GiveVersion::Bedrock);
    assert_eq!(normalize_version("nope"), GiveVersion::Java1_21_11Plus);
}

#[test]
fn text_encoders() {
    assert_eq!(bool_byte(true), "1b");
    assert_eq!(bool_byte(false), "0b");
    assert_eq!(quote("a\"b\\c\nd\u{1}é"), "\"a\\\"b\\\\c\\nd\\u0001é\"");
    assert_eq!(snbt_json_string(r#"{"text":"it's \n"}"#), r#"'{"text":"it\'s \\n"}'"#);
    assert_eq!(strip_minecraft_namespace("  minecraft:stone "), "stone");
    assert_eq!(strip_minecraft_namespace("mymod:thing"), "mymod:thing");
    assert_eq!(component_id(" sharpness "), "sharpness");
    assert_eq!(component_id("minecraft:unbreaking"), "unbreaking");
    assert_eq!(component_id("mymod:x"), "mymod:x");
    assert_eq!(component_id("   "), "");
    let pairs: &[(&str, &str)] = &[("主手", "mainhand"), ("副手", "offhand")];
    assert_eq!(pair_value(pairs, "副手"), "offhand");
    assert_eq!(pair_value(pairs, "mainhand"), "mainhand");
    assert_eq!(pair_value(pairs, "head"), "head");
}

#[test]
fn version_strings_with_signs_spaces_and_overflow() {
    assert_eq!(detect_give_version_from_raw("  1.21.5 "), Some(GiveVersion::Java1_21_5));
    assert_eq!(detect_give_version_from_raw("+1.+21.-3"), Some(GiveVersion::Java1_21_11Plus));
    assert_eq!(detect_give_version_from_raw("1.21."), None);
    assert_eq!(detect_give_version_from_raw("1.99999999999999999999"), None);
    assert_eq!(detect_give_version_from_raw("25.9"), None);
    assert_eq!(detect_give_version_from_raw("1"), None);
}

#[test]
fn snbt_json_string_escapes_single_quotes() {
    assert_eq!(snbt_json_string("it's"), "'it\\'s'");
    assert_eq!(snbt_json_string("plain"), "'plain'");
}

#[test]
fn color_lerp_rounds_exact_halves_up() {
    let steps = color_lerp("#000000", "#2d0000", 11).unwrap();
    assert_eq!(steps[7], "#200000");
    assert_eq!(steps[1], "#050000");
}
